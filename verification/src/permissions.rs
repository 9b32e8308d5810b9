//! The four capability categories an extension may request, each with
//! three-state semantics: not requested, wildcard, or allow-list.

use vstd::prelude::*;
use vstd::string::*;

use crate::style::{blue_bold_wrap, paint_blue_bold, paint_yellow_bold, yellow_bold_wrap};

verus! {

/// One capability category as declared in a manifest.
///
/// A category is either absent (never exercised at runtime), declared with an
/// empty allow-list (a wildcard grant over the whole capability class), or
/// declared with one or more specific patterns.
#[derive(Clone, Debug)]
pub enum PermissionField {
    /// The capability is absent from the manifest.
    NotRequested,
    /// The capability was declared with an empty list: unrestricted access.
    Wildcard,
    /// The capability is restricted to the given non-empty pattern list.
    AllowList(Vec<String>),
}

/// Mathematical model of a `PermissionField`.
#[verifier::ext_equal]
pub enum FieldView {
    NotRequested,
    Wildcard,
    AllowList(Seq<Seq<char>>),
}

impl View for PermissionField {
    type V = FieldView;

    open spec fn view(&self) -> FieldView {
        match self {
            PermissionField::NotRequested => FieldView::NotRequested,
            PermissionField::Wildcard => FieldView::Wildcard,
            PermissionField::AllowList(ps) => FieldView::AllowList(ps.deep_view()),
        }
    }
}

impl PermissionField {
    /// A field is well formed when an allow-list is non-empty: an empty list
    /// is always represented by `Wildcard`, never by `AllowList`.
    pub open spec fn wf(&self) -> bool {
        self@ matches FieldView::AllowList(ps) ==> ps.len() > 0
    }

    /// Whether the capability was requested at all.
    pub open spec fn requested_spec(&self) -> bool {
        !(self@ is NotRequested)
    }

    /// Whether the capability was requested at all.
    pub fn requested(&self) -> (r: bool)
        ensures
            r == self.requested_spec(),
    {
        !matches!(self, PermissionField::NotRequested)
    }
}

/// The full set of capability requirements declared by one extension:
/// filesystem reads, filesystem writes, process execution and network access.
#[derive(Clone, Debug)]
pub struct Permissions {
    /// Filesystem paths the extension may read.
    pub read: PermissionField,
    /// Filesystem paths the extension may write.
    pub write: PermissionField,
    /// Commands the extension may run.
    pub run: PermissionField,
    /// Network domains the extension may access.
    pub net: PermissionField,
}

/// Mathematical model of a `Permissions` value.
#[verifier::ext_equal]
pub struct PermissionsView {
    pub read: FieldView,
    pub write: FieldView,
    pub run: FieldView,
    pub net: FieldView,
}

impl View for Permissions {
    type V = PermissionsView;

    open spec fn view(&self) -> PermissionsView {
        PermissionsView {
            read: self.read@,
            write: self.write@,
            run: self.run@,
            net: self.net@,
        }
    }
}

impl Permissions {
    /// All four categories are well formed.
    pub open spec fn wf(&self) -> bool {
        self.read.wf() && self.write.wf() && self.run.wf() && self.net.wf()
    }

    /// No category was requested: consent can be skipped entirely.
    pub open spec fn allow_none_spec(&self) -> bool {
        &&& self@.read is NotRequested
        &&& self@.write is NotRequested
        &&& self@.run is NotRequested
        &&& self@.net is NotRequested
    }

    /// The model of a permission set that requests nothing.
    pub open spec fn none_view() -> PermissionsView {
        PermissionsView {
            read: FieldView::NotRequested,
            write: FieldView::NotRequested,
            run: FieldView::NotRequested,
            net: FieldView::NotRequested,
        }
    }

    /// A permission set that requests nothing.
    pub fn none() -> (r: Permissions)
        ensures
            r@ == Self::none_view(),
            r.allow_none_spec(),
            r.wf(),
    {
        Permissions {
            read: PermissionField::NotRequested,
            write: PermissionField::NotRequested,
            run: PermissionField::NotRequested,
            net: PermissionField::NotRequested,
        }
    }

    /// True iff none of `read`, `write`, `run`, `net` was requested.
    pub fn is_allow_none(&self) -> (r: bool)
        ensures
            r == self.allow_none_spec(),
    {
        !self.read.requested() && !self.write.requested() && !self.run.requested()
            && !self.net.requested()
    }
}

/// One allow-list row: the pattern, literally, in quotes.
pub open spec fn pattern_line(p: Seq<char>) -> Seq<char> {
    "    '"@ + p + "'"@
}

/// What one capability category shows for consent review, labelled by its
/// capability `key` ("Read"/"Write"/"Run"/"Access") and `resource` kind
/// ("path"/"command"/"domain"): nothing when not requested; one bold yellow
/// blanket-grant warning for a wildcard; a bold blue header and one literal
/// row per pattern for an allow-list.
pub open spec fn category_lines(f: FieldView, key: Seq<char>, resource: Seq<char>) -> Seq<
    Seq<char>,
> {
    match f {
        FieldView::NotRequested => Seq::empty(),
        FieldView::Wildcard => seq!["  "@ + yellow_bold_wrap(key + " any "@ + resource)],
        FieldView::AllowList(ps) => seq![
            "  "@ + blue_bold_wrap(key) + " the following "@ + resource + "s:"@,
        ] + ps.map_values(|p: Seq<char>| pattern_line(p)),
    }
}

/// Renders one capability category for consent review.
pub fn render_category(field: &PermissionField, key: &str, resource: &str) -> (r: Vec<String>)
    ensures
        r.deep_view() == category_lines(field@, key@, resource@),
{
    let mut out: Vec<String> = Vec::new();
    match field {
        PermissionField::NotRequested => {
            proof {
                assert(out.deep_view() =~= category_lines(field@, key@, resource@));
            }
        },
        PermissionField::Wildcard => {
            let mut msg: String = key.to_owned();
            msg.append(" any ");
            msg.append(resource);
            let painted = paint_yellow_bold(msg.as_str());
            let mut line = String::from_str("  ");
            line.append(painted.as_str());
            out.push(line);
            proof {
                assert(line@ =~= "  "@ + yellow_bold_wrap(key@ + " any "@ + resource@));
                assert(out.deep_view() =~= category_lines(field@, key@, resource@));
            }
        },
        PermissionField::AllowList(ps) => {
            let ghost header_spec = "  "@ + blue_bold_wrap(key@) + " the following "@ + resource@
                + "s:"@;
            let painted = paint_blue_bold(key);
            let mut header = String::from_str("  ");
            header.append(painted.as_str());
            header.append(" the following ");
            header.append(resource);
            header.append("s:");
            proof {
                assert(header@ =~= header_spec);
            }
            out.push(header);
            let ghost plines = ps.deep_view().map_values(|p: Seq<char>| pattern_line(p));
            let mut i: usize = 0;
            proof {
                assert(out.deep_view() =~= seq![header_spec] + plines.take(0));
            }
            while i < ps.len()
                invariant
                    i <= ps@.len(),
                    plines == ps.deep_view().map_values(|p: Seq<char>| pattern_line(p)),
                    plines.len() == ps@.len(),
                    ps.deep_view().len() == ps@.len(),
                    out.deep_view() == seq![header_spec] + plines.take(i as int),
                decreases ps@.len() - i,
            {
                let ghost pre = out.deep_view();
                let mut line = String::from_str("    '");
                line.append(ps[i].as_str());
                line.append("'");
                proof {
                    assert(ps.deep_view()[i as int] == ps@[i as int]@);
                    assert(line@ =~= pattern_line(ps.deep_view()[i as int]));
                    assert(plines[i as int] == pattern_line(ps.deep_view()[i as int]));
                }
                out.push(line);
                proof {
                    assert(out.deep_view() =~= pre.push(plines[i as int]));
                    assert(out.deep_view() =~= seq![header_spec] + plines.take(i + 1));
                }
                i = i + 1;
            }
            proof {
                assert(plines.take(i as int) =~= plines);
                assert(out.deep_view() =~= category_lines(field@, key@, resource@));
            }
        },
    }
    out
}

/// Everything the consent prompt shows for a permission set: the four
/// categories in order, read, write, run, net; categories not requested are
/// never displayed.
pub open spec fn render_lines(p: PermissionsView) -> Seq<Seq<char>> {
    category_lines(p.read, "Read"@, "path"@) + category_lines(p.write, "Write"@, "path"@)
        + category_lines(p.run, "Run"@, "command"@) + category_lines(p.net, "Access"@, "domain"@)
}

/// Renders a permission set for consent review, line for line.
pub fn render_permissions(p: &Permissions) -> (r: Vec<String>)
    ensures
        r.deep_view() == render_lines(p@),
{
    let mut out = render_category(&p.read, "Read", "path");
    let mut w = render_category(&p.write, "Write", "path");
    let mut ru = render_category(&p.run, "Run", "command");
    let mut n = render_category(&p.net, "Access", "domain");
    let ghost d0 = out.deep_view();
    let ghost dw = w.deep_view();
    let ghost dr = ru.deep_view();
    let ghost dn = n.deep_view();
    out.append(&mut w);
    proof {
        assert(out.deep_view() =~= d0 + dw);
    }
    let ghost d1 = out.deep_view();
    out.append(&mut ru);
    proof {
        assert(out.deep_view() =~= d1 + dr);
    }
    let ghost d2 = out.deep_view();
    out.append(&mut n);
    proof {
        assert(out.deep_view() =~= d2 + dn);
        assert(out.deep_view() =~= render_lines(p@));
    }
    out
}

} // verus!
