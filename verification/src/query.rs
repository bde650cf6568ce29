//! Assembly of enumeration results.
//!
//! An enumeration runs in two backend phases: the submitted pattern (built by
//! [`crate::pattern::query_pattern`]) lists matching descriptors, and each
//! listed descriptor is resolved once more against the backend's full
//! substitution rules to obtain its concrete style and file. The caller hands
//! the outcome of both phases back as one [`ResolvedEntry`] per descriptor;
//! this module turns those entries into the ordered [`QueryResult`].
//!
//! An entry whose listing carried no family, or whose resolution yielded no
//! style, is skipped and the enumeration continues — absence of one
//! descriptor's attributes does not fail the whole call.

use crate::order::{lemma_lex_le_reflexive, lemma_lex_le_total, lemma_lex_le_transitive, lex_le, str_lex_le};
use vstd::prelude::*;
use vstd::utf8::encode_utf8;

verus! {

/// A single enumeration hit: the family under which the backend listed the
/// font, its resolved style name, and the resolved file path where the
/// backend knew one (a hit without a file is still a valid result).
pub struct FontInfo {
    pub family: String,
    pub style: String,
    pub file: Option<String>,
}

impl FontInfo {
    pub fn new(family: String, style: String, file: Option<String>) -> (r: FontInfo)
        ensures
            r.family == family,
            r.style == style,
            r.file == file,
    {
        FontInfo { family, style, file }
    }
}

/// An enumeration's outcome: hits ordered by family name (bytewise
/// lexicographic, case-sensitive; ties keep the backend's order). Not
/// deduplicated — a family appears once per style variant found.
pub type QueryResult = Vec<FontInfo>;

/// What the backend handed back for one listed descriptor: the family under
/// which it was listed, and the style and file of its best-match resolution.
/// Any of the three may be absent from the backend's answer.
pub struct ResolvedEntry {
    pub family: Option<String>,
    pub style: Option<String>,
    pub file: Option<String>,
}

/// An entry enters the result exactly when the listing gave a family and the
/// resolution gave a style.
pub open spec fn entry_accepted(e: ResolvedEntry) -> bool {
    e.family is Some && e.style is Some
}

/// The hit an accepted entry contributes: the family under which it was
/// listed (not the resolved one), the resolved style and file.
pub open spec fn entry_info(e: ResolvedEntry) -> FontInfo {
    FontInfo { family: e.family->0, style: e.style->0, file: e.file }
}

/// The hits of the accepted entries, in the backend's order.
pub open spec fn collected(es: Seq<ResolvedEntry>) -> Seq<FontInfo>
    decreases es.len(),
{
    if es.len() == 0 {
        Seq::empty()
    } else if entry_accepted(es.last()) {
        collected(es.drop_last()).push(entry_info(es.last()))
    } else {
        collected(es.drop_last())
    }
}

/// The key the result is ordered by: the family name's UTF-8 encoding.
pub open spec fn family_key(f: FontInfo) -> Seq<u8> {
    encode_utf8(f.family@)
}

/// Non-decreasing by family name.
pub open spec fn fonts_sorted(s: Seq<FontInfo>) -> bool {
    forall|i: int, j: int| #![trigger s[i], s[j]]
        0 <= i < j < s.len() ==> lex_le(family_key(s[i]), family_key(s[j]))
}

/// Insert one hit into an ordered sequence, after every hit whose key is not
/// greater — a late arrival goes behind its equals, which keeps the
/// backend's order among equal family names.
pub open spec fn insert_sorted(s: Seq<FontInfo>, x: FontInfo) -> Seq<FontInfo>
    decreases s.len(),
{
    if s.len() == 0 {
        seq![x]
    } else if lex_le(family_key(s.last()), family_key(x)) {
        s.push(x)
    } else {
        insert_sorted(s.drop_last(), x).push(s.last())
    }
}

/// Stable insertion sort by family name.
pub open spec fn sort_by_family(s: Seq<FontInfo>) -> Seq<FontInfo>
    decreases s.len(),
{
    if s.len() == 0 {
        Seq::empty()
    } else {
        insert_sorted(sort_by_family(s.drop_last()), s.last())
    }
}

/// The enumeration result for a sequence of backend answers: one hit per
/// accepted entry, ordered by family name.
pub open spec fn query_spec(es: Seq<ResolvedEntry>) -> Seq<FontInfo> {
    sort_by_family(collected(es))
}

proof fn lemma_insert_sorted_upper(s: Seq<FontInfo>, x: FontInfo, bnd: FontInfo)
    requires
        forall|k: int| #![trigger s[k]] 0 <= k < s.len() ==> lex_le(family_key(s[k]), family_key(bnd)),
        lex_le(family_key(x), family_key(bnd)),
    ensures
        forall|k: int| #![trigger insert_sorted(s, x)[k]]
            0 <= k < insert_sorted(s, x).len() ==> lex_le(
                family_key(insert_sorted(s, x)[k]),
                family_key(bnd),
            ),
    decreases s.len(),
{
    if s.len() == 0 {
        assert(insert_sorted(s, x)[0] == x);
    } else if lex_le(family_key(s.last()), family_key(x)) {
        assert forall|k: int| 0 <= k < insert_sorted(s, x).len() implies lex_le(
            family_key(#[trigger] insert_sorted(s, x)[k]),
            family_key(bnd),
        ) by {
            if k < s.len() {
                assert(insert_sorted(s, x)[k] == s[k]);
            } else {
                assert(insert_sorted(s, x)[k] == x);
            }
        }
    } else {
        let t = s.drop_last();
        assert(forall|k: int| #![trigger t[k]] 0 <= k < t.len() ==> t[k] == s[k]);
        lemma_insert_sorted_upper(t, x, bnd);
        assert forall|k: int| 0 <= k < insert_sorted(s, x).len() implies lex_le(
            family_key(#[trigger] insert_sorted(s, x)[k]),
            family_key(bnd),
        ) by {
            if k < insert_sorted(t, x).len() {
                assert(insert_sorted(s, x)[k] == insert_sorted(t, x)[k]);
            } else {
                assert(insert_sorted(s, x)[k] == s.last());
            }
        }
    }
}

proof fn lemma_insert_sorted_sorted(s: Seq<FontInfo>, x: FontInfo)
    requires
        fonts_sorted(s),
    ensures
        fonts_sorted(insert_sorted(s, x)),
    decreases s.len(),
{
    if s.len() == 0 {
    } else if lex_le(family_key(s.last()), family_key(x)) {
        let r = s.push(x);
        assert forall|i: int, j: int| 0 <= i < j < r.len() implies lex_le(
            family_key(#[trigger] r[i]),
            family_key(#[trigger] r[j]),
        ) by {
            if j < s.len() {
            } else {
                assert(r[j] == x);
                assert(r[i] == s[i]);
                if i < s.len() - 1 {
                    lemma_lex_le_transitive(
                        family_key(s[i]),
                        family_key(s.last()),
                        family_key(x),
                    );
                }
            }
        }
    } else {
        let t = s.drop_last();
        assert(forall|k: int| #![trigger t[k]] 0 <= k < t.len() ==> t[k] == s[k]);
        lemma_insert_sorted_sorted(t, x);
        lemma_lex_le_total(family_key(s.last()), family_key(x));
        assert(forall|k: int| #![trigger t[k]]
            0 <= k < t.len() ==> lex_le(family_key(t[k]), family_key(s.last())));
        lemma_insert_sorted_upper(t, x, s.last());
        let q = insert_sorted(t, x);
        let r = q.push(s.last());
        assert forall|i: int, j: int| 0 <= i < j < r.len() implies lex_le(
            family_key(#[trigger] r[i]),
            family_key(#[trigger] r[j]),
        ) by {
            if j < q.len() {
                assert(r[i] == q[i] && r[j] == q[j]);
            } else {
                assert(r[j] == s.last());
                assert(r[i] == q[i]);
            }
        }
    }
}

proof fn lemma_insert_sorted_multiset(s: Seq<FontInfo>, x: FontInfo)
    ensures
        insert_sorted(s, x).to_multiset() == s.to_multiset().insert(x),
    decreases s.len(),
{
    broadcast use vstd::seq_lib::group_to_multiset_ensures;

    if s.len() == 0 {
        assert(s =~= Seq::<FontInfo>::empty());
        assert(seq![x] =~= Seq::<FontInfo>::empty().push(x));
    } else if lex_le(family_key(s.last()), family_key(x)) {
    } else {
        let t = s.drop_last();
        lemma_insert_sorted_multiset(t, x);
        assert(t.push(s.last()) =~= s);
        assert(insert_sorted(s, x).to_multiset() =~= s.to_multiset().insert(x));
    }
}

/// Sorting does not invent, drop or duplicate hits: the sorted sequence holds
/// exactly the hits of the input.
pub proof fn lemma_sort_by_family_permutes(s: Seq<FontInfo>)
    ensures
        sort_by_family(s).to_multiset() == s.to_multiset(),
    decreases s.len(),
{
    broadcast use vstd::seq_lib::group_to_multiset_ensures;

    if s.len() > 0 {
        let t = s.drop_last();
        lemma_sort_by_family_permutes(t);
        lemma_insert_sorted_multiset(sort_by_family(t), s.last());
        assert(t.push(s.last()) =~= s);
    }
}

/// The sort's outcome is ordered: non-decreasing by family name.
pub proof fn lemma_sort_by_family_sorted(s: Seq<FontInfo>)
    ensures
        fonts_sorted(sort_by_family(s)),
    decreases s.len(),
{
    if s.len() > 0 {
        lemma_sort_by_family_sorted(s.drop_last());
        lemma_insert_sorted_sorted(sort_by_family(s.drop_last()), s.last());
    }
}

proof fn lemma_insert_sorted_at(s: Seq<FontInfo>, x: FontInfo, pos: int)
    requires
        0 <= pos <= s.len(),
        forall|k: int| #![trigger s[k]]
            pos <= k < s.len() ==> !lex_le(family_key(s[k]), family_key(x)),
        pos > 0 ==> lex_le(family_key(s[pos - 1]), family_key(x)),
    ensures
        insert_sorted(s, x) == s.insert(pos, x),
    decreases s.len(),
{
    if s.len() == 0 {
        assert(seq![x] =~= s.insert(0, x));
    } else if pos == s.len() {
        assert(lex_le(family_key(s.last()), family_key(x)));
        assert(s.push(x) =~= s.insert(pos, x));
    } else {
        assert(!lex_le(family_key(s[s.len() - 1]), family_key(x)));
        let t = s.drop_last();
        assert(forall|k: int| #![trigger t[k]] 0 <= k < t.len() ==> t[k] == s[k]);
        lemma_insert_sorted_at(t, x, pos);
        assert(t.insert(pos, x).push(s.last()) =~= s.insert(pos, x));
    }
}

/// Turn the backend's answers into hits: one per accepted entry, in the
/// backend's order, skipping entries without a listed family or a resolved
/// style.
pub fn collect_fonts(entries: Vec<ResolvedEntry>) -> (r: Vec<FontInfo>)
    ensures
        r@ == collected(entries@),
{
    let ghost orig: Seq<ResolvedEntry> = entries@;
    let mut rest = entries;
    let mut out: Vec<FontInfo> = Vec::new();
    proof {
        assert(orig.take(0) =~= Seq::<ResolvedEntry>::empty());
        assert(orig.skip(0) =~= orig);
    }
    while rest.len() > 0
        invariant
            rest@.len() <= orig.len(),
            rest@ == orig.skip(orig.len() - rest@.len()),
            out@ == collected(orig.take(orig.len() - rest@.len())),
        decreases rest@.len(),
    {
        let ghost done: int = orig.len() - rest@.len();
        let e = rest.remove(0);
        proof {
            assert(e == orig[done]);
            assert(orig.skip(done).remove(0) =~= orig.skip(done + 1));
            assert(orig.take(done + 1).drop_last() =~= orig.take(done));
            assert(orig.take(done + 1).last() == orig[done]);
        }
        let ResolvedEntry { family, style, file } = e;
        match (family, style) {
            (Some(fam), Some(sty)) => {
                out.push(FontInfo { family: fam, style: sty, file });
            },
            _ => {},
        }
    }
    proof {
        assert(orig.take(orig.len() as int) =~= orig);
    }
    out
}

/// Sort hits by family name: the outcome is exactly the stable insertion sort
/// of the input — ordered, a permutation, ties left in input order.
pub fn sort_fonts(fonts: Vec<FontInfo>) -> (r: Vec<FontInfo>)
    ensures
        r@ == sort_by_family(fonts@),
        fonts_sorted(r@),
        r@.to_multiset() == fonts@.to_multiset(),
{
    let ghost orig: Seq<FontInfo> = fonts@;
    let mut rest = fonts;
    let mut out: Vec<FontInfo> = Vec::new();
    proof {
        assert(orig.take(0) =~= Seq::<FontInfo>::empty());
        assert(orig.skip(0) =~= orig);
    }
    while rest.len() > 0
        invariant
            rest@.len() <= orig.len(),
            rest@ == orig.skip(orig.len() - rest@.len()),
            out@ == sort_by_family(orig.take(orig.len() - rest@.len())),
            fonts_sorted(out@),
        decreases rest@.len(),
    {
        let ghost done: int = orig.len() - rest@.len();
        let x = rest.remove(0);
        proof {
            assert(x == orig[done]);
            assert(orig.skip(done).remove(0) =~= orig.skip(done + 1));
            assert(orig.take(done + 1).drop_last() =~= orig.take(done));
            assert(orig.take(done + 1).last() == orig[done]);
        }
        let mut pos: usize = out.len();
        loop
            invariant
                pos <= out@.len(),
                forall|k: int| #![trigger out@[k]]
                    pos <= k < out@.len() ==> !lex_le(family_key(out@[k]), family_key(x)),
            ensures
                pos <= out@.len(),
                forall|k: int| #![trigger out@[k]]
                    pos <= k < out@.len() ==> !lex_le(family_key(out@[k]), family_key(x)),
                pos > 0 ==> lex_le(family_key(out@[pos - 1]), family_key(x)),
            decreases pos,
        {
            if pos == 0 {
                break;
            }
            let le = str_lex_le(out[pos - 1].family.as_str(), x.family.as_str());
            if le {
                break;
            }
            pos = pos - 1;
        }
        proof {
            lemma_insert_sorted_at(out@, x, pos as int);
            lemma_insert_sorted_sorted(out@, x);
        }
        out.insert(pos, x);
    }
    proof {
        assert(orig.take(orig.len() as int) =~= orig);
        lemma_sort_by_family_permutes(orig);
    }
    out
}

/// Assemble an enumeration's outcome from the backend's answers: the hits of
/// the accepted entries, ordered by family name.
pub fn query_results(entries: Vec<ResolvedEntry>) -> (r: QueryResult)
    ensures
        r@ == query_spec(entries@),
        fonts_sorted(r@),
        r@.to_multiset() == collected(entries@).to_multiset(),
{
    let infos = collect_fonts(entries);
    sort_fonts(infos)
}

/// Assembly is a function of the backend's answers alone: the same answers
/// give the same ordered result. Two requests built to the same constraints
/// submit the same pattern (see [`crate::pattern::lemma_pattern_deterministic`]),
/// so against an unchanged backend they enumerate identically.
pub proof fn lemma_query_deterministic(es1: Seq<ResolvedEntry>, es2: Seq<ResolvedEntry>)
    requires
        es1 == es2,
    ensures
        query_spec(es1) == query_spec(es2),
{
}

/// Ties keep the backend's order: hits that all carry one family name sort to
/// exactly their input sequence.
pub proof fn lemma_sort_ties_keep_order(s: Seq<FontInfo>, key: Seq<u8>)
    requires
        forall|k: int| #![trigger s[k]] 0 <= k < s.len() ==> family_key(s[k]) == key,
    ensures
        sort_by_family(s) == s,
    decreases s.len(),
{
    if s.len() > 0 {
        let t = s.drop_last();
        assert(forall|k: int| #![trigger t[k]] 0 <= k < t.len() ==> t[k] == s[k]);
        lemma_sort_ties_keep_order(t, key);
        if t.len() > 0 {
            lemma_lex_le_reflexive(key);
            assert(lex_le(family_key(t.last()), family_key(s.last())));
        }
        assert(insert_sorted(t, s.last()) =~= s);
    }
}

proof fn lemma_collected_membership(es: Seq<ResolvedEntry>)
    ensures
        forall|k: int| #![trigger collected(es)[k]]
            0 <= k < collected(es).len() ==> exists|j: int|
                0 <= j < es.len() && entry_accepted(#[trigger] es[j]) && collected(es)[k]
                    == entry_info(es[j]),
    decreases es.len(),
{
    if es.len() > 0 {
        let t = es.drop_last();
        lemma_collected_membership(t);
        assert forall|k: int| 0 <= k < collected(es).len() implies exists|j: int|
            0 <= j < es.len() && entry_accepted(#[trigger] es[j]) && (#[trigger] collected(es)[k])
                == entry_info(es[j]) by {
            if entry_accepted(es.last()) && k == collected(es).len() - 1 {
                let j0 = es.len() - 1;
                assert(es[j0] == es.last());
                assert(entry_accepted(es[j0]) && collected(es)[k] == entry_info(es[j0]));
            } else {
                assert(collected(es)[k] == collected(t)[k]);
                let j0 = choose|j: int|
                    0 <= j < t.len() && entry_accepted(#[trigger] t[j]) && collected(t)[k]
                        == entry_info(t[j]);
                assert(t[j0] == es[j0]);
                assert(entry_accepted(es[j0]) && collected(es)[k] == entry_info(es[j0]));
            }
        }
    }
}

/// Every hit of an enumeration comes from one of the backend's accepted
/// entries: it carries the family under which the backend listed that
/// descriptor and the style the backend resolved for it. In particular, for a
/// family-constrained request, every returned family is one the backend
/// listed for that constraint.
pub proof fn lemma_query_families_from_entries(es: Seq<ResolvedEntry>)
    ensures
        forall|k: int| #![trigger query_spec(es)[k]]
            0 <= k < query_spec(es).len() ==> exists|j: int|
                0 <= j < es.len() && entry_accepted(#[trigger] es[j]) && query_spec(es)[k]
                    == entry_info(es[j]),
{
    broadcast use vstd::seq_lib::group_to_multiset_ensures;

    lemma_collected_membership(es);
    lemma_sort_by_family_permutes(collected(es));
    assert forall|k: int| 0 <= k < query_spec(es).len() implies exists|j: int|
        0 <= j < es.len() && entry_accepted(#[trigger] es[j]) && (#[trigger] query_spec(es)[k])
            == entry_info(es[j]) by {
        let f = query_spec(es)[k];
        assert(query_spec(es).contains(f));
        assert(collected(es).to_multiset().count(f) > 0);
        assert(collected(es).contains(f));
        let m = choose|m: int| 0 <= m < collected(es).len() && collected(es)[m] == f;
        assert(collected(es)[m] == f);
    }
}

} // verus!
