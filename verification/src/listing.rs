//! Enumeration helpers around the registry: skipping individually corrupt
//! entries, filtering out name conflicts with built-in commands, and
//! rendering the listing table.

use vstd::prelude::*;
use vstd::string::*;

use crate::extension::{Extension, ExtensionView};
use crate::registry::seq_view;
use crate::style::{blue_wrap, paint_blue};
use crate::text::{push_spaces, spaces, str_eq};

verus! {

/// The models of a sequence of resolution results: a corrupt entry is
/// `None`, a resolved one carries its extension.
pub open spec fn opts_view(s: Seq<Option<Extension>>) -> Seq<Option<ExtensionView>> {
    s.map_values(
        |o: Option<Extension>|
            match o {
                Some(e) => Some(e@),
                None => None,
            },
    )
}

/// The extensions that survive a listing: resolved entries in order,
/// corrupt ones skipped.
pub open spec fn kept(s: Seq<Option<ExtensionView>>) -> Seq<ExtensionView>
    decreases s.len(),
{
    if s.len() == 0 {
        Seq::empty()
    } else {
        kept(s.drop_last()) + (match s.last() {
            Some(e) => seq![e],
            None => Seq::<ExtensionView>::empty(),
        })
    }
}

/// Keeps the entries that resolved, in order; a corrupt entry is skipped,
/// never fatal for the whole listing.
pub fn installed_from_entries(entries: Vec<Option<Extension>>) -> (r: Vec<Extension>)
    ensures
        seq_view(r@) == kept(opts_view(entries@)),
{
    let ghost orig: Seq<Option<Extension>> = entries@;
    let mut rest = entries;
    let mut out: Vec<Extension> = Vec::new();
    proof {
        assert(opts_view(orig.take(0)) =~= Seq::<Option<ExtensionView>>::empty());
        assert(seq_view(out@) =~= kept(opts_view(orig.take(0))));
    }
    while rest.len() > 0
        invariant
            rest@.len() <= orig.len(),
            rest@ =~= orig.skip(orig.len() - rest@.len()),
            seq_view(out@) == kept(opts_view(orig.take(orig.len() - rest@.len()))),
        decreases rest@.len(),
    {
        let ghost k = orig.len() - rest@.len();
        let ghost pre_out = seq_view(out@);
        let e = rest.remove(0);
        proof {
            assert(e == orig[k]);
            assert(rest@ =~= orig.skip(orig.len() - rest@.len()));
        }
        match e {
            Some(x) => {
                out.push(x);
                proof {
                    assert(seq_view(out@) =~= pre_out.push(x@));
                }
            },
            None => {},
        }
        proof {
            let p = opts_view(orig.take(k));
            let q = opts_view(orig.take(k + 1));
            assert(q.drop_last() =~= p);
            assert(q.last() == opts_view(orig)[k]);
            match orig[k] {
                Some(x) => {
                    assert(seq_view(out@) =~= kept(p) + seq![x@]);
                },
                None => {
                    assert(seq_view(out@) =~= kept(p) + Seq::<ExtensionView>::empty());
                },
            }
        }
    }
    proof {
        assert(orig.take(orig.len() - rest@.len()) =~= orig);
    }
    out
}

/// Whether `s` occurs among `names`.
pub fn contains_str(names: &Vec<String>, s: &str) -> (r: bool)
    ensures
        r == names.deep_view().contains(s@),
{
    let mut i: usize = 0;
    while i < names.len()
        invariant
            i <= names@.len(),
            names.deep_view().len() == names@.len(),
            forall|j: int| 0 <= j < i ==> names.deep_view()[j] != s@,
        decreases names@.len() - i,
    {
        proof {
            assert(names.deep_view()[i as int] == names@[i as int]@);
        }
        if str_eq(names[i].as_str(), s) {
            return true;
        }
        i = i + 1;
    }
    proof {
        assert(!names.deep_view().contains(s@));
    }
    false
}

/// The extensions that keep a sub-command: those whose name does not
/// collide with a name already `taken` by a built-in command.
pub open spec fn conflict_free(s: Seq<ExtensionView>, taken: Seq<Seq<char>>) -> Seq<ExtensionView>
    decreases s.len(),
{
    if s.len() == 0 {
        s
    } else {
        conflict_free(s.drop_last(), taken) + (if taken.contains(s.last().manifest.name) {
            Seq::<ExtensionView>::empty()
        } else {
            seq![s.last()]
        })
    }
}

/// Filters out the extensions whose names collide with a built-in command
/// name; such an extension is dropped from the command surface, never a
/// hard failure.
pub fn filter_name_conflicts(exts: Vec<Extension>, taken: &Vec<String>) -> (r: Vec<Extension>)
    ensures
        seq_view(r@) == conflict_free(seq_view(exts@), taken.deep_view()),
{
    let ghost orig: Seq<Extension> = exts@;
    let mut rest = exts;
    let mut out: Vec<Extension> = Vec::new();
    proof {
        assert(seq_view(orig.take(0)) =~= Seq::<ExtensionView>::empty());
        assert(seq_view(out@) =~= conflict_free(seq_view(orig.take(0)), taken.deep_view()));
    }
    while rest.len() > 0
        invariant
            rest@.len() <= orig.len(),
            rest@ =~= orig.skip(orig.len() - rest@.len()),
            seq_view(out@) == conflict_free(
                seq_view(orig.take(orig.len() - rest@.len())),
                taken.deep_view(),
            ),
        decreases rest@.len(),
    {
        let ghost k = orig.len() - rest@.len();
        let ghost pre_out = seq_view(out@);
        let e = rest.remove(0);
        proof {
            assert(e == orig[k]);
            assert(rest@ =~= orig.skip(orig.len() - rest@.len()));
        }
        let conflicted = contains_str(taken, e.manifest.name.as_str());
        if !conflicted {
            out.push(e);
            proof {
                assert(seq_view(out@) =~= pre_out.push(orig[k]@));
            }
        }
        proof {
            let p = seq_view(orig.take(k));
            let q = seq_view(orig.take(k + 1));
            assert(q.drop_last() =~= p);
            assert(q.last() == orig[k]@);
            if taken.deep_view().contains(orig[k]@.manifest.name) {
                assert(seq_view(out@) =~= conflict_free(p, taken.deep_view())
                    + Seq::<ExtensionView>::empty());
            } else {
                assert(seq_view(out@) =~= conflict_free(p, taken.deep_view())
                    + seq![orig[k]@]);
            }
            assert(seq_view(out@) == conflict_free(q, taken.deep_view()));
        }
    }
    proof {
        assert(orig.take(orig.len() - rest@.len()) =~= orig);
    }
    out
}

/// The heading of the listing table, painted blue.
pub open spec fn list_heading() -> Seq<char> {
    blue_wrap("Extension Name         Description"@)
}

/// How many spaces pad a name to the listing column width.
pub open spec fn pad_width(l: nat) -> nat {
    if l >= 20 {
        0
    } else {
        (20 - l) as nat
    }
}

/// The description column: the declared description, or nothing.
pub open spec fn desc_text(d: Option<Seq<char>>) -> Seq<char> {
    match d {
        Some(x) => x,
        None => Seq::empty(),
    }
}

/// One row of the listing table: the name padded to the column width,
/// three spaces, the description.
pub open spec fn list_line(name: Seq<char>, desc: Seq<char>) -> Seq<char> {
    name + spaces(pad_width(name.len())) + "   "@ + desc
}

/// What the listing shows: a placeholder line when nothing is installed,
/// else the heading and one row per extension.
pub open spec fn list_lines(s: Seq<ExtensionView>) -> Seq<Seq<char>> {
    if s.len() == 0 {
        seq!["No extensions are currently installed."@]
    } else {
        seq![list_heading()] + s.map_values(
            |e: ExtensionView| list_line(e.manifest.name, desc_text(e.manifest.description)),
        )
    }
}

/// Renders the listing of installed extensions, row for row.
pub fn render_extension_list(exts: &Vec<Extension>) -> (r: Vec<String>)
    ensures
        r.deep_view() == list_lines(seq_view(exts@)),
{
    let mut out: Vec<String> = Vec::new();
    if exts.len() == 0 {
        out.push(String::from_str("No extensions are currently installed."));
        proof {
            assert(out.deep_view() =~= list_lines(seq_view(exts@)));
        }
        return out;
    }
    out.push(paint_blue("Extension Name         Description"));
    let ghost rows = seq_view(exts@).map_values(
        |e: ExtensionView| list_line(e.manifest.name, desc_text(e.manifest.description)),
    );
    let mut i: usize = 0;
    proof {
        assert(out.deep_view() =~= seq![list_heading()] + rows.take(0));
    }
    while i < exts.len()
        invariant
            i <= exts@.len(),
            rows == seq_view(exts@).map_values(
                |e: ExtensionView| list_line(e.manifest.name, desc_text(e.manifest.description)),
            ),
            rows.len() == exts@.len(),
            out.deep_view() == seq![list_heading()] + rows.take(i as int),
        decreases exts@.len() - i,
    {
        let ghost pre = out.deep_view();
        let name: &String = &exts[i].manifest.name;
        let mut line: String = name.clone();
        let l = name.as_str().unicode_len();
        let p: usize = if l >= 20 {
            0
        } else {
            20 - l
        };
        push_spaces(&mut line, p);
        line.append("   ");
        match &exts[i].manifest.description {
            Some(d) => line.append(d.as_str()),
            None => (),
        }
        proof {
            assert(seq_view(exts@)[i as int] == exts@[i as int]@);
            assert(line@ == list_line(exts@[i as int]@.manifest.name, desc_text(
                exts@[i as int]@.manifest.description,
            )));
            assert(rows[i as int] == list_line(exts@[i as int]@.manifest.name, desc_text(
                exts@[i as int]@.manifest.description,
            )));
        }
        out.push(line);
        proof {
            assert(out.deep_view() =~= pre.push(rows[i as int]));
            assert(out.deep_view() =~= seq![list_heading()] + rows.take(i + 1));
        }
        i = i + 1;
    }
    proof {
        assert(rows.take(i as int) =~= rows);
        assert(out.deep_view() =~= list_lines(seq_view(exts@)));
    }
    out
}

} // verus!
