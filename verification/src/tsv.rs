//! Tab-separated key/value lines: request headers come in as such text, storage options go out.

use crate::text::{
    chars_of, cut, find, first_index, has_char, is_le, join, join_strings, optional_str, text_le,
    texts,
};
use std::collections::HashMap;
use vstd::prelude::*;

verus! {

/// The texts of a list of string pairs.
pub open spec fn pair_texts(s: Seq<(String, String)>) -> Seq<(Seq<char>, Seq<char>)> {
    s.map_values(|p: (String, String)| (p.0@, p.1@))
}

/// A line without the carriage return that ends it, if one does.
pub open spec fn without_cr(s: Seq<char>) -> Seq<char> {
    if s.len() > 0 && s.last() == '\r' {
        s.drop_last()
    } else {
        s
    }
}

/// The lines of a text. A line ends with a line feed, or with a carriage return and a line feed;
/// the end of the last line may be missing.
pub open spec fn lines(s: Seq<char>) -> Seq<Seq<char>>
    decreases s.len(),
{
    let end = first_index(s, '\n') as int;
    if s.len() == 0 {
        Seq::empty()
    } else if end >= s.len() {
        seq![s]
    } else {
        seq![without_cr(s.take(end))] + lines(s.skip(end + 1))
    }
}

/// The header that a line holds: the key before the first tab and the value behind it. A line
/// without a tab, or with nothing before it, holds none.
pub open spec fn header_of(line: Seq<char>) -> Option<(Seq<char>, Seq<char>)> {
    let tab = first_index(line, '\t') as int;
    if 0 < tab < line.len() {
        Some((line.take(tab), line.skip(tab + 1)))
    } else {
        None
    }
}

/// The headers that lines hold, in order.
pub open spec fn headers_of(s: Seq<Seq<char>>) -> Seq<(Seq<char>, Seq<char>)>
    decreases s.len(),
{
    if s.len() == 0 {
        Seq::empty()
    } else {
        match header_of(s.last()) {
            Some(h) => headers_of(s.drop_last()).push(h),
            None => headers_of(s.drop_last()),
        }
    }
}

/// The headers that an optional text holds.
pub open spec fn headers_in(headers_tsv: Option<Seq<char>>) -> Seq<(Seq<char>, Seq<char>)> {
    match headers_tsv {
        Some(t) => headers_of(lines(t)),
        None => Seq::empty(),
    }
}

/// Splits a text into its lines.
fn split_lines(text: &str) -> (r: Vec<String>)
    ensures
        texts(r@) == lines(text@),
{
    let chars = chars_of(text);
    let mut r: Vec<String> = Vec::new();
    let mut pos: usize = 0;
    assert(text@.skip(0) =~= text@);
    assert(texts(r@) + lines(text@) =~= lines(text@));
    while pos < chars.len()
        invariant
            chars@ == text@,
            pos <= chars@.len(),
            texts(r@) + lines(text@.skip(pos as int)) == lines(text@),
        decreases chars@.len() - pos,
    {
        let ghost done = r@;
        let ghost rest = text@.skip(pos as int);
        let end = find(&chars, pos, '\n');
        if end == chars.len() {
            let line = cut(&chars, pos, end);
            assert(line@ =~= rest);
            r.push(line);
            assert(texts(r@) =~= texts(done) + seq![rest]);
            pos = end;
            assert(texts(r@) + lines(text@.skip(pos as int)) =~= texts(r@));
        } else {
            let stop: usize = if end > pos && chars[end - 1] == '\r' {
                end - 1
            } else {
                end
            };
            let line = cut(&chars, pos, stop);
            assert(rest.take(end - pos) =~= text@.subrange(pos as int, end as int));
            assert(line@ =~= without_cr(rest.take(end - pos)));
            assert(rest.skip(end - pos + 1) =~= text@.skip(end + 1));
            r.push(line);
            assert(texts(r@) =~= texts(done) + seq![line@]);
            assert(texts(r@) + lines(text@.skip(end + 1)) =~= texts(done) + (seq![line@] + lines(
                text@.skip(end + 1),
            )));
            pos = end + 1;
        }
    }
    assert(texts(r@) + lines(text@.skip(pos as int)) =~= texts(r@));
    r
}

/// Reads the header that a line holds.
fn parse_header(line: &str) -> (r: Option<(String, String)>)
    ensures
        match r {
            Some(h) => header_of(line@) == Some((h.0@, h.1@)),
            None => header_of(line@) is None,
        },
{
    let chars = chars_of(line);
    let tab = find(&chars, 0, '\t');
    assert(line@.skip(0) =~= line@);
    if 0 < tab && tab < chars.len() {
        let key = cut(&chars, 0, tab);
        let value = cut(&chars, tab + 1, chars.len());
        assert(key@ =~= line@.take(tab as int));
        assert(value@ =~= line@.skip(tab + 1));
        Some((key, value))
    } else {
        None
    }
}

/// Reads request headers from lines of the form key, tab, value. Lines of another form are
/// skipped; without a text there are no headers.
pub fn parse_headers_tsv(headers_tsv: Option<&str>) -> (r: Vec<(String, String)>)
    ensures
        pair_texts(r@) == headers_in(optional_str(headers_tsv)),
{
    let mut r: Vec<(String, String)> = Vec::new();
    if let Some(text) = headers_tsv {
        let found = split_lines(text);
        let ghost all = lines(text@);
        assert(pair_texts(r@) =~= headers_of(all.take(0)));
        for i in 0..found.len()
            invariant
                texts(found@) == all,
                pair_texts(r@) == headers_of(all.take(i as int)),
        {
            let ghost done = r@;
            assert(all.take(i + 1).drop_last() =~= all.take(i as int));
            assert(all[i as int] == found@[i as int]@);
            if let Some(h) = parse_header(found[i].as_str()) {
                r.push(h);
                assert(pair_texts(r@) =~= pair_texts(done).push((h.0@, h.1@)));
            }
        }
        assert(all.take(all.len() as int) =~= all);
    } else {
        assert(pair_texts(r@) =~= Seq::empty());
    }
    r
}

/// The texts that a map of strings holds.
pub open spec fn text_map(m: Map<String, String>) -> Map<Seq<char>, Seq<char>> {
    Map::new(
        |k: Seq<char>| exists|key: String| #[trigger] m.contains_key(key) && key@ == k,
        |k: Seq<char>| m[choose|key: String| #[trigger] m.contains_key(key) && key@ == k]@,
    )
}

/// Whether `s` holds each entry of `m` once, and nothing else.
pub open spec fn lists(s: Seq<(Seq<char>, Seq<char>)>, m: Map<Seq<char>, Seq<char>>) -> bool {
    &&& forall|i: int|
        0 <= i < s.len() ==> m.contains_key((#[trigger] s[i]).0) && m[s[i].0] == s[i].1
    &&& forall|k: Seq<char>| #[trigger]
        m.contains_key(k) ==> exists|i: int| 0 <= i < s.len() && (#[trigger] s[i]).0 == k
    &&& forall|i: int, j: int|
        0 <= i < j < s.len() ==> (#[trigger] s[i]).0 != (#[trigger] s[j]).0
}

/// Whether the keys of `s` strictly ascend.
pub open spec fn keys_ascend(s: Seq<(Seq<char>, Seq<char>)>) -> bool {
    forall|i: int, j: int|
        0 <= i < j < s.len() ==> text_le((#[trigger] s[i]).0, (#[trigger] s[j]).0) && s[i].0
            != s[j].0
}

/// The entries of `m` in the order of their keys.
pub open spec fn sorted_entries(m: Map<Seq<char>, Seq<char>>) -> Seq<(Seq<char>, Seq<char>)> {
    choose|s: Seq<(Seq<char>, Seq<char>)>| lists(s, m) && keys_ascend(s)
}

/// An entry as a line: key, tab, value.
pub open spec fn entry_line(p: (Seq<char>, Seq<char>)) -> Seq<char> {
    p.0.push('\t') + p.1
}

/// Entries as lines, with a line feed between neighbours.
pub open spec fn tsv_text(s: Seq<(Seq<char>, Seq<char>)>) -> Seq<char> {
    join(s.map_values(|p: (Seq<char>, Seq<char>)| entry_line(p)), '\n')
}

/// `HashMap::into_iter`, collected: each entry of the map once. The order is left open.
#[verifier::external_body]
fn entries_of(options: HashMap<String, String>) -> (r: Vec<(String, String)>)
    ensures
        lists(pair_texts(r@), text_map(options@)),
{
    options.into_iter().collect()
}

/// Puts one more entry where its key belongs.
fn insert_sorted(sorted: &mut Vec<(String, String)>, entry: (String, String))
    requires
        keys_ascend(pair_texts(old(sorted)@)),
        forall|i: int| 0 <= i < old(sorted)@.len() ==> (#[trigger] old(sorted)@[i]).0@ != entry.0@,
    ensures
        keys_ascend(pair_texts(final(sorted)@)),
        exists|i: int|
            0 <= i <= old(sorted)@.len() && final(sorted)@ == #[trigger] old(sorted)@.insert(
                i,
                entry,
            ),
{
    let ghost before = pair_texts(sorted@);
    let ghost key = entry.0@;
    let mut i: usize = 0;
    while i < sorted.len() && is_le(sorted[i].0.as_str(), entry.0.as_str())
        invariant
            i <= sorted@.len(),
            sorted@ == old(sorted)@,
            key == entry.0@,
            before == pair_texts(sorted@),
            forall|j: int| 0 <= j < i ==> text_le((#[trigger] before[j]).0, key),
        decreases sorted@.len() - i,
    {
        i += 1;
    }
    proof {
        assert forall|j: int| i <= j < before.len() implies text_le(
            key,
            (#[trigger] before[j]).0,
        ) by {
            assert(before[i as int].0 == sorted@[i as int].0@);
            crate::text::lemma_text_le_total(before[i as int].0, key);
            if j > i {
                crate::text::lemma_text_le_transitive(key, before[i as int].0, before[j].0);
            }
        }
        assert forall|j: int| 0 <= j < before.len() implies (#[trigger] before[j]).0 != key by {
            assert(before[j].0 == sorted@[j].0@);
        }
    }
    sorted.insert(i, entry);
    proof {
        assert(sorted@ == old(sorted)@.insert(i as int, entry));
        assert(pair_texts(sorted@) =~= before.insert(i as int, (key, entry.1@)));
        lemma_insert_ascends(before, i as int, (key, entry.1@));
    }
}

/// An entry that is put between those with smaller and those with greater keys keeps the order.
proof fn lemma_insert_ascends(
    s: Seq<(Seq<char>, Seq<char>)>,
    i: int,
    entry: (Seq<char>, Seq<char>),
)
    requires
        keys_ascend(s),
        0 <= i <= s.len(),
        forall|j: int| 0 <= j < i ==> text_le((#[trigger] s[j]).0, entry.0),
        forall|j: int| i <= j < s.len() ==> text_le(entry.0, (#[trigger] s[j]).0),
        forall|j: int| 0 <= j < s.len() ==> (#[trigger] s[j]).0 != entry.0,
    ensures
        keys_ascend(s.insert(i, entry)),
{
    let after = s.insert(i, entry);
    assert forall|a: int, b: int| 0 <= a < b < after.len() implies text_le(
        (#[trigger] after[a]).0,
        (#[trigger] after[b]).0,
    ) && after[a].0 != after[b].0 by {
        let x = if a < i {
            a
        } else {
            a - 1
        };
        let y = if b < i {
            b
        } else {
            b - 1
        };
        if a != i {
            assert(after[a] == s[x]);
        }
        if b != i {
            assert(after[b] == s[y]);
        }
    }
}

/// Writes storage options as lines of key, tab, value, in the order of their keys.
pub fn storage_options_to_tsv(storage_options: HashMap<String, String>) -> (r: String)
    ensures
        r@ == tsv_text(sorted_entries(text_map(storage_options@))),
        lists(sorted_entries(text_map(storage_options@)), text_map(storage_options@)),
        keys_ascend(sorted_entries(text_map(storage_options@))),
{
    let ghost m = text_map(storage_options@);
    let mut items = entries_of(storage_options);
    let ghost all = items@;
    let mut sorted: Vec<(String, String)> = Vec::new();
    while items.len() > 0
        invariant
            lists(pair_texts(all), m),
            items@.len() <= all.len(),
            items@ == all.take(items@.len() as int),
            keys_ascend(pair_texts(sorted@)),
            forall|k: int| 0 <= k < sorted@.len() ==> exists|j: int|
                items@.len() <= j < all.len() && all[j] == #[trigger] sorted@[k],
            forall|j: int|
                items@.len() <= j < all.len() ==> sorted@.contains(#[trigger] all[j]),
        decreases items@.len(),
    {
        let ghost before = sorted@;
        let ghost n = items@.len() as int;
        if let Some(entry) = items.pop() {
            proof {
                assert(entry == all[n - 1]);
                assert forall|i: int| 0 <= i < before.len() implies (#[trigger] before[i]).0@
                    != entry.0@ by {
                    let j = choose|j: int| n <= j < all.len() && all[j] == before[i];
                    assert(pair_texts(all)[n - 1].0 != pair_texts(all)[j].0);
                }
            }
            insert_sorted(&mut sorted, entry);
            proof {
                let p = choose|p: int|
                    0 <= p <= before.len() && sorted@ == #[trigger] before.insert(p, entry);
                assert forall|k: int| 0 <= k < sorted@.len() implies exists|j: int|
                    n - 1 <= j < all.len() && all[j] == #[trigger] sorted@[k] by {
                    if k == p {
                        assert(all[n - 1] == sorted@[k]);
                    } else {
                        let q = if k < p {
                            k
                        } else {
                            k - 1
                        };
                        assert(sorted@[k] == before[q]);
                    }
                }
                assert forall|j: int| n - 1 <= j < all.len() implies sorted@.contains(
                    #[trigger] all[j],
                ) by {
                    if j == n - 1 {
                        assert(sorted@[p] == all[j]);
                    } else {
                        let q = choose|q: int| 0 <= q < before.len() && before[q] == all[j];
                        assert(sorted@[if q < p {
                            q
                        } else {
                            q + 1
                        }] == all[j]);
                    }
                }
            }
        }
    }
    let mut rows: Vec<String> = Vec::new();
    let ghost entries = pair_texts(sorted@);
    for i in 0..sorted.len()
        invariant
            entries == pair_texts(sorted@),
            texts(rows@) == entries.take(i as int).map_values(
                |p: (Seq<char>, Seq<char>)| entry_line(p),
            ),
    {
        let ghost done = rows@;
        let mut row = sorted[i].0.clone();
        row.push('\t');
        row.append(sorted[i].1.as_str());
        assert(row@ == entry_line(entries[i as int]));
        rows.push(row);
        assert(texts(rows@) =~= texts(done).push(entry_line(entries[i as int])));
        assert(texts(rows@) =~= entries.take(i + 1).map_values(
            |p: (Seq<char>, Seq<char>)| entry_line(p),
        ));
    }
    proof {
        assert(entries.take(entries.len() as int) =~= entries);
        assert(lists(entries, m)) by {
            assert forall|i: int| 0 <= i < entries.len() implies m.contains_key(
                (#[trigger] entries[i]).0,
            ) && m[entries[i].0] == entries[i].1 by {
                let j = choose|j: int| 0 <= j < all.len() && all[j] == sorted@[i];
                assert(pair_texts(all)[j] == entries[i]);
            }
            assert forall|k: Seq<char>| #[trigger] m.contains_key(k) implies exists|i: int|
                0 <= i < entries.len() && (#[trigger] entries[i]).0 == k by {
                let j = choose|j: int|
                    0 <= j < pair_texts(all).len() && (#[trigger] pair_texts(all)[j]).0 == k;
                assert(sorted@.contains(all[j]));
                let i = choose|i: int| 0 <= i < sorted@.len() && sorted@[i] == all[j];
                assert(entries[i].0 == k);
            }
        }
        law_sorted_entries_are_determined(entries, m);
    }
    join_strings(&rows, '\n')
}

proof fn lemma_first_entries_agree(
    s: Seq<(Seq<char>, Seq<char>)>,
    t: Seq<(Seq<char>, Seq<char>)>,
    m: Map<Seq<char>, Seq<char>>,
)
    requires
        lists(s, m),
        lists(t, m),
        keys_ascend(s),
        keys_ascend(t),
        s.len() > 0,
    ensures
        t.len() > 0,
        s[0] == t[0],
{
    assert(m.contains_key(s[0].0));
    let j = choose|j: int| 0 <= j < t.len() && (#[trigger] t[j]).0 == s[0].0;
    assert(m.contains_key(t[0].0));
    let k = choose|k: int| 0 <= k < s.len() && (#[trigger] s[k]).0 == t[0].0;
    if j > 0 && k > 0 {
        crate::text::lemma_text_le_antisymmetric(s[0].0, t[0].0);
    }
}

proof fn lemma_lists_rest(s: Seq<(Seq<char>, Seq<char>)>, m: Map<Seq<char>, Seq<char>>)
    requires
        lists(s, m),
        keys_ascend(s),
        s.len() > 0,
    ensures
        lists(s.drop_first(), m.remove(s[0].0)),
        keys_ascend(s.drop_first()),
{
    let rest = s.drop_first();
    let less = m.remove(s[0].0);
    assert forall|i: int| 0 <= i < rest.len() implies less.contains_key((#[trigger] rest[i]).0)
        && less[rest[i].0] == rest[i].1 by {
        assert(rest[i] == s[i + 1]);
    }
    assert forall|k: Seq<char>| #[trigger] less.contains_key(k) implies exists|i: int|
        0 <= i < rest.len() && (#[trigger] rest[i]).0 == k by {
        assert(m.contains_key(k));
        let i = choose|i: int| 0 <= i < s.len() && (#[trigger] s[i]).0 == k;
        assert(rest[i - 1] == s[i]);
    }
    assert forall|i: int, j: int| 0 <= i < j < rest.len() implies text_le(
        (#[trigger] rest[i]).0,
        (#[trigger] rest[j]).0,
    ) && rest[i].0 != rest[j].0 by {
        assert(rest[i] == s[i + 1]);
        assert(rest[j] == s[j + 1]);
    }
}

/// The entries of a map can be put in the order of their keys in one way only. So the text that
/// storage options are written as depends on the options alone, not on how they were stored.
pub proof fn law_sorted_entries_are_determined(
    s: Seq<(Seq<char>, Seq<char>)>,
    m: Map<Seq<char>, Seq<char>>,
)
    requires
        lists(s, m),
        keys_ascend(s),
    ensures
        sorted_entries(m) == s,
{
    lemma_sorted_listing_unique(sorted_entries(m), s, m);
}

proof fn lemma_sorted_listing_unique(
    s: Seq<(Seq<char>, Seq<char>)>,
    t: Seq<(Seq<char>, Seq<char>)>,
    m: Map<Seq<char>, Seq<char>>,
)
    requires
        lists(s, m),
        lists(t, m),
        keys_ascend(s),
        keys_ascend(t),
    ensures
        s == t,
    decreases s.len(),
{
    if s.len() == 0 {
        if t.len() > 0 {
            assert(m.contains_key(t[0].0));
        }
        assert(s =~= t);
    } else {
        lemma_first_entries_agree(s, t, m);
        lemma_lists_rest(s, m);
        lemma_lists_rest(t, m);
        lemma_sorted_listing_unique(s.drop_first(), t.drop_first(), m.remove(s[0].0));
        assert(s =~= seq![s[0]] + s.drop_first());
        assert(t =~= seq![t[0]] + t.drop_first());
    }
}

/// How many entries of an ordered list come before the key `k`.
spec fn place(s: Seq<(Seq<char>, Seq<char>)>, k: Seq<char>) -> nat
    decreases s.len(),
{
    if s.len() == 0 || !text_le(s[0].0, k) {
        0
    } else {
        1 + place(s.drop_first(), k)
    }
}

proof fn lemma_place(s: Seq<(Seq<char>, Seq<char>)>, k: Seq<char>)
    requires
        keys_ascend(s),
    ensures
        place(s, k) <= s.len(),
        forall|j: int| 0 <= j < place(s, k) ==> text_le((#[trigger] s[j]).0, k),
        forall|j: int| place(s, k) <= j < s.len() ==> text_le(k, (#[trigger] s[j]).0),
    decreases s.len(),
{
    if s.len() > 0 {
        let rest = s.drop_first();
        if text_le(s[0].0, k) {
            assert forall|a: int, b: int| 0 <= a < b < rest.len() implies text_le(
                (#[trigger] rest[a]).0,
                (#[trigger] rest[b]).0,
            ) && rest[a].0 != rest[b].0 by {
                assert(rest[a] == s[a + 1]);
                assert(rest[b] == s[b + 1]);
            }
            lemma_place(rest, k);
            assert forall|j: int| 0 <= j < place(s, k) implies text_le((#[trigger] s[j]).0, k) by {
                if j > 0 {
                    assert(s[j] == rest[j - 1]);
                }
            }
            assert forall|j: int| place(s, k) <= j < s.len() implies text_le(
                k,
                (#[trigger] s[j]).0,
            ) by {
                assert(s[j] == rest[j - 1]);
            }
        } else {
            crate::text::lemma_text_le_total(s[0].0, k);
            assert forall|j: int| 0 <= j < s.len() implies text_le(k, (#[trigger] s[j]).0) by {
                if j > 0 {
                    crate::text::lemma_text_le_transitive(k, s[0].0, s[j].0);
                }
            }
        }
    }
}

/// Every finite map has its entries listed in the order of their keys.
pub proof fn law_sorted_entries_exist(m: Map<Seq<char>, Seq<char>>)
    requires
        m.dom().finite(),
    ensures
        lists(sorted_entries(m), m),
        keys_ascend(sorted_entries(m)),
    decreases m.dom().len(),
{
    if m.dom().len() == 0 {
        let s = Seq::<(Seq<char>, Seq<char>)>::empty();
        assert forall|k: Seq<char>| !(#[trigger] m.contains_key(k)) by {
            assert(!m.dom().contains(k));
        }
        assert(lists(s, m) && keys_ascend(s));
    } else {
        let k = m.dom().choose();
        let less = m.remove(k);
        law_sorted_entries_exist(less);
        let before = sorted_entries(less);
        let i = place(before, k) as int;
        let entry = (k, m[k]);
        let s = before.insert(i, entry);
        assert forall|j: int| 0 <= j < before.len() implies (#[trigger] before[j]).0 != k by {
            assert(less.contains_key(before[j].0));
        }
        lemma_place(before, k);
        lemma_insert_ascends(before, i, entry);
        assert forall|j: int| 0 <= j < s.len() implies m.contains_key((#[trigger] s[j]).0)
            && m[s[j].0] == s[j].1 by {
            if j < i {
                assert(s[j] == before[j]);
            } else if j > i {
                assert(s[j] == before[j - 1]);
            }
        }
        assert forall|key: Seq<char>| #[trigger] m.contains_key(key) implies exists|j: int|
            0 <= j < s.len() && (#[trigger] s[j]).0 == key by {
            if key == k {
                assert(s[i].0 == key);
            } else {
                assert(less.contains_key(key));
                let j = choose|j: int| 0 <= j < before.len() && (#[trigger] before[j]).0 == key;
                assert(s[if j < i {
                    j
                } else {
                    j + 1
                }].0 == key);
            }
        }
        assert(lists(s, m) && keys_ascend(s));
    }
}

/// Storage options can be listed in the order of their keys, so the text that they are written as
/// holds each of them once, and nothing else.
pub proof fn law_options_are_listed(options: HashMap<String, String>)
    ensures
        lists(sorted_entries(text_map(options@)), text_map(options@)),
        keys_ascend(sorted_entries(text_map(options@))),
{
    let m = text_map(options@);
    let keys = options@.dom();
    let view = |k: String| k@;
    assert(keys.finite());
    keys.lemma_map_finite(view);
    assert forall|k: Seq<char>| #[trigger] m.dom().contains(k) implies keys.map(view).contains(
        k,
    ) by {
        let key = choose|key: String| #[trigger] options@.contains_key(key) && key@ == k;
        assert(keys.contains(key) && view(key) == k);
    }
    vstd::set_lib::lemma_set_subset_finite(keys.map(view), m.dom());
    law_sorted_entries_exist(m);
}

/// A text without line feeds, followed by one and more text, has the first text (without the
/// carriage return that ends it) as its first line.
proof fn lemma_lines_front(a: Seq<char>, b: Seq<char>)
    requires
        !has_char(a, '\n'),
    ensures
        lines(a.push('\n') + b) == seq![without_cr(a)] + lines(b),
{
    let s = a.push('\n') + b;
    crate::text::lemma_first_index_is(s, '\n', a.len() as int);
    assert(s.take(a.len() as int) =~= a);
    assert(s.skip(a.len() as int + 1) =~= b);
}

/// Joined with line feeds, lines that hold none are read back as they were, if the last is not
/// empty and none before the last ends with a carriage return.
proof fn lemma_lines_of_join(parts: Seq<Seq<char>>)
    requires
        forall|i: int| 0 <= i < parts.len() ==> !has_char(#[trigger] parts[i], '\n'),
        forall|i: int|
            0 <= i < parts.len() - 1 ==> without_cr(#[trigger] parts[i]) == parts[i],
        parts.len() > 0 ==> parts.last().len() > 0,
    ensures
        lines(join(parts, '\n')) == parts,
    decreases parts.len(),
{
    if parts.len() == 0 {
        assert(lines(join(parts, '\n')) =~= parts);
    } else if parts.len() == 1 {
        assert(!has_char(parts[0], '\n'));
        crate::text::lemma_first_index_is(parts[0], '\n', parts[0].len() as int);
        assert(lines(join(parts, '\n')) =~= parts);
    } else {
        let rest = parts.drop_first();
        crate::text::lemma_join_front(parts, '\n');
        assert forall|i: int| 0 <= i < rest.len() implies !has_char(#[trigger] rest[i], '\n') by {
            assert(rest[i] == parts[i + 1]);
        }
        assert forall|i: int| 0 <= i < rest.len() - 1 implies without_cr(#[trigger] rest[i])
            == rest[i] by {
            assert(rest[i] == parts[i + 1]);
        }
        lemma_lines_of_join(rest);
        assert(!has_char(parts[0], '\n'));
        assert(without_cr(parts[0]) == parts[0]);
        lemma_lines_front(parts[0], join(rest, '\n'));
        assert(seq![parts[0]] + rest =~= parts);
    }
}

/// A line that was written from an entry with a non-empty key without tabs holds that entry.
proof fn lemma_header_of_entry(p: (Seq<char>, Seq<char>))
    requires
        p.0.len() > 0,
        !has_char(p.0, '\t'),
    ensures
        header_of(entry_line(p)) == Some(p),
{
    let line = entry_line(p);
    crate::text::lemma_first_index_is(line, '\t', p.0.len() as int);
    assert(line.take(p.0.len() as int) =~= p.0);
    assert(line.skip(p.0.len() as int + 1) =~= p.1);
}

proof fn lemma_headers_of_entries(s: Seq<(Seq<char>, Seq<char>)>)
    requires
        forall|i: int|
            0 <= i < s.len() ==> (#[trigger] s[i]).0.len() > 0 && !has_char(s[i].0, '\t'),
    ensures
        headers_of(s.map_values(|p: (Seq<char>, Seq<char>)| entry_line(p))) == s,
    decreases s.len(),
{
    let rows = s.map_values(|p: (Seq<char>, Seq<char>)| entry_line(p));
    if s.len() == 0 {
        assert(headers_of(rows) =~= s);
    } else {
        let rest = s.drop_last();
        assert forall|i: int| 0 <= i < rest.len() implies (#[trigger] rest[i]).0.len() > 0
            && !has_char(rest[i].0, '\t') by {
            assert(rest[i] == s[i]);
        }
        lemma_headers_of_entries(rest);
        assert(s[s.len() - 1].0.len() > 0);
        lemma_header_of_entry(s.last());
        assert(rows.drop_last() =~= rest.map_values(
            |p: (Seq<char>, Seq<char>)| entry_line(p),
        ));
        assert(headers_of(rows) =~= s);
    }
}

/// What is written as tab-separated lines is read back from them, entry for entry. Lost on the
/// way are entries with an empty key, with a tab or a line feed in the key or with a line feed in
/// the value, and a carriage return that ends a value other than the last.
pub proof fn law_tsv_round_trip(s: Seq<(Seq<char>, Seq<char>)>)
    requires
        forall|i: int|
            0 <= i < s.len() ==> {
                &&& (#[trigger] s[i]).0.len() > 0
                &&& !has_char(s[i].0, '\t')
                &&& !has_char(s[i].0, '\n')
                &&& !has_char(s[i].1, '\n')
                &&& i < s.len() - 1 ==> without_cr(s[i].1) == s[i].1
            },
    ensures
        headers_of(lines(tsv_text(s))) == s,
{
    let rows = s.map_values(|p: (Seq<char>, Seq<char>)| entry_line(p));
    assert forall|i: int| 0 <= i < rows.len() implies !has_char(#[trigger] rows[i], '\n') by {
        let key = s[i].0;
        let value = s[i].1;
        assert(rows[i] == key.push('\t') + value);
        if has_char(rows[i], '\n') {
            let j = choose|j: int| 0 <= j < rows[i].len() && rows[i][j] == '\n';
            if j < key.len() {
                assert(key[j] == '\n');
            } else if j > key.len() {
                assert(value[j - key.len() - 1] == '\n');
            }
        }
    }
    assert forall|i: int| 0 <= i < rows.len() - 1 implies without_cr(#[trigger] rows[i])
        == rows[i] by {
        let value = s[i].1;
        assert(rows[i] == s[i].0.push('\t') + value);
        if value.len() > 0 {
            assert(rows[i].last() == value.last());
            assert(without_cr(value) == value);
        }
    }
    if rows.len() > 0 {
        assert(rows.last() == entry_line(s.last()));
    }
    lemma_lines_of_join(rows);
    lemma_headers_of_entries(s);
}

/// Storage options that are written as text are read back from it, each once and in the order of
/// their keys. Lost on the way are what `law_tsv_round_trip` names.
pub proof fn law_options_round_trip(options: HashMap<String, String>)
    requires
        forall|k: Seq<char>| #[trigger]
            text_map(options@).contains_key(k) ==> {
                &&& k.len() > 0
                &&& !has_char(k, '\t')
                &&& !has_char(k, '\n')
                &&& !has_char(text_map(options@)[k], '\n')
                &&& without_cr(text_map(options@)[k]) == text_map(options@)[k] || forall|
                    other: Seq<char>,
                | #[trigger]
                    text_map(options@).contains_key(other) ==> text_le(other, k)
            },
    ensures
        lists(headers_of(lines(tsv_text(sorted_entries(text_map(options@))))), text_map(options@)),
        keys_ascend(headers_of(lines(tsv_text(sorted_entries(text_map(options@)))))),
{
    let m = text_map(options@);
    let s = sorted_entries(m);
    law_options_are_listed(options);
    assert forall|i: int| 0 <= i < s.len() implies {
        &&& (#[trigger] s[i]).0.len() > 0
        &&& !has_char(s[i].0, '\t')
        &&& !has_char(s[i].0, '\n')
        &&& !has_char(s[i].1, '\n')
        &&& i < s.len() - 1 ==> without_cr(s[i].1) == s[i].1
    } by {
        assert(m.contains_key(s[i].0));
        if i < s.len() - 1 && without_cr(s[i].1) != s[i].1 {
            assert(m.contains_key(s[i + 1].0));
            crate::text::lemma_text_le_antisymmetric(s[i].0, s[i + 1].0);
        }
    }
    law_tsv_round_trip(s);
}

proof fn lemma_headers_of_concat(a: Seq<Seq<char>>, b: Seq<Seq<char>>)
    ensures
        headers_of(a + b) == headers_of(a) + headers_of(b),
    decreases b.len(),
{
    if b.len() == 0 {
        assert(a + b =~= a);
        assert(headers_of(a) + headers_of(b) =~= headers_of(a));
    } else {
        lemma_headers_of_concat(a, b.drop_last());
        assert((a + b).drop_last() =~= a + b.drop_last());
        assert((a + b).last() == b.last());
        assert(headers_of(a + b) =~= headers_of(a) + headers_of(b));
    }
}

proof fn lemma_headers_front(line: Seq<char>, rest: Seq<char>)
    requires
        !has_char(line, '\n'),
    ensures
        headers_in(Some(line.push('\n') + rest)) == headers_of(seq![without_cr(line)])
            + headers_in(Some(rest)),
        line.len() > 0 ==> headers_in(Some(line)) == headers_of(seq![line]),
{
    lemma_lines_front(line, rest);
    lemma_headers_of_concat(seq![without_cr(line)], lines(rest));
    if line.len() > 0 {
        crate::text::lemma_first_index_is(line, '\n', line.len() as int);
    }
}

proof fn lemma_headers_of_one(line: Seq<char>)
    ensures
        headers_of(seq![line]) == match header_of(line) {
            Some(h) => seq![h],
            None => Seq::empty(),
        },
{
    let s = seq![line];
    assert(s.drop_last() =~= Seq::empty());
    assert(s.last() == line);
    assert(headers_of(s.drop_last()) =~= Seq::empty());
    match header_of(line) {
        Some(h) => {
            assert(headers_of(s) =~= seq![h]);
        },
        None => {},
    }
}

/// A line of a key, a tab and a value is a header, whatever follows it: the key is what stands
/// before the first tab, the value is all that stands behind it. A line ends with a line feed, or
/// with a carriage return and a line feed, or with the text.
pub proof fn law_header_line(key: Seq<char>, value: Seq<char>, rest: Seq<char>)
    requires
        key.len() > 0,
        !has_char(key, '\t'),
        !has_char(key, '\n'),
        !has_char(value, '\n'),
    ensures
        headers_in(Some(key + seq!['\t'] + value)) == seq![(key, value)],
        headers_in(Some(key + seq!['\t'] + value + seq!['\r', '\n'] + rest)) == seq![(key, value)]
            + headers_in(Some(rest)),
        value.len() == 0 || value.last() != '\r' ==> headers_in(
            Some(key + seq!['\t'] + value + seq!['\n'] + rest),
        ) == seq![(key, value)] + headers_in(Some(rest)),
{
    let line = entry_line((key, value));
    let with_cr = line.push('\r');
    lemma_header_of_entry((key, value));
    lemma_headers_of_one(line);
    assert(line =~= key + seq!['\t'] + value);
    assert forall|i: int| 0 <= i < line.len() implies line[i] != '\n' by {
        if i < key.len() {
            assert(key[i] != '\n');
        } else if i > key.len() {
            assert(value[i - key.len() - 1] != '\n');
        }
    }
    assert(!has_char(line, '\n'));
    assert(!has_char(with_cr, '\n')) by {
        assert forall|i: int| 0 <= i < with_cr.len() implies with_cr[i] != '\n' by {
            if i < line.len() {
                assert(line[i] != '\n');
            }
        }
    }
    assert(without_cr(with_cr) =~= line);
    lemma_headers_front(line, rest);
    lemma_headers_front(with_cr, rest);
    assert(with_cr.push('\n') + rest =~= key + seq!['\t'] + value + seq!['\r', '\n'] + rest);
    assert(line.push('\n') + rest =~= key + seq!['\t'] + value + seq!['\n'] + rest);
    if value.len() > 0 {
        assert(line.last() == value.last());
    }
}

/// A line without a tab, or with nothing before its first tab, holds no header and takes nothing
/// away from the lines behind it. No text holds no headers.
pub proof fn law_other_line(line: Seq<char>, rest: Seq<char>)
    requires
        !has_char(line, '\n'),
        !has_char(line, '\t') || line[0] == '\t',
    ensures
        headers_in(None).len() == 0,
        headers_in(Some(Seq::empty())).len() == 0,
        headers_in(Some(line)).len() == 0,
        headers_in(Some(line + seq!['\n'] + rest)) == headers_in(Some(rest)),
{
    assert(line.push('\n') + rest =~= line + seq!['\n'] + rest);
    lemma_headers_front(line, rest);
    let cut = without_cr(line);
    crate::text::lemma_first_index(line, '\t');
    crate::text::lemma_first_index(cut, '\t');
    assert(header_of(line) is None) by {
        let tab = first_index(line, '\t') as int;
        if 0 < tab < line.len() {
            assert(line[tab] == '\t');
            assert(line[0] != '\t');
        }
    }
    assert(header_of(cut) is None) by {
        let tab = first_index(cut, '\t') as int;
        if 0 < tab < cut.len() {
            assert(line[tab] == '\t');
            assert(cut[0] == line[0]);
        }
    }
    lemma_headers_of_one(line);
    lemma_headers_of_one(cut);
    assert(Seq::<(Seq<char>, Seq<char>)>::empty() + headers_in(Some(rest)) =~= headers_in(
        Some(rest),
    ));
    if line.len() == 0 {
        assert(line =~= Seq::empty());
    }
}

/// The text map of a map of strings has the text of every key, and under each the text of the value
/// that the map has there.
pub proof fn law_text_map(m: Map<String, String>)
    ensures
        forall|key: String| #[trigger] m.contains_key(key) ==> text_map(m).contains_key(key@),
        forall|k: Seq<char>| #[trigger]
            text_map(m).contains_key(k) ==> exists|key: String| #[trigger]
                m.contains_key(key) && key@ == k && text_map(m)[k] == m[key]@,
{
    assert forall|k: Seq<char>| #[trigger] text_map(m).contains_key(k) implies exists|key: String|
        #[trigger]
        m.contains_key(key) && key@ == k && text_map(m)[k] == m[key]@ by {
        let key = choose|key: String| #[trigger] m.contains_key(key) && key@ == k;
        assert(m.contains_key(key));
    }
}

/// An entry is written as its key, a tab and its value; lists of entries are written one after the
/// other, with one line feed between. No entries are no text.
pub proof fn law_tsv_text_lines(
    a: Seq<(Seq<char>, Seq<char>)>,
    b: Seq<(Seq<char>, Seq<char>)>,
    entry: (Seq<char>, Seq<char>),
)
    ensures
        tsv_text(Seq::empty()).len() == 0,
        tsv_text(seq![entry]) == entry.0 + seq!['\t'] + entry.1,
        a.len() > 0 && b.len() > 0 ==> tsv_text(a + b) == tsv_text(a) + seq!['\n'] + tsv_text(b),
{
    let line = |p: (Seq<char>, Seq<char>)| entry_line(p);
    crate::text::law_join_parts(
        a.map_values(line),
        b.map_values(line),
        entry_line(entry),
        '\n',
    );
    assert((a + b).map_values(line) =~= a.map_values(line) + b.map_values(line));
    assert(seq![entry].map_values(line) =~= seq![entry_line(entry)]);
    assert(entry_line(entry) =~= entry.0 + seq!['\t'] + entry.1);
    assert(Seq::<(Seq<char>, Seq<char>)>::empty().map_values(line) =~= Seq::empty());
}

/// The text that storage options are written as has a line for each option, with its key and value,
/// no line for anything else, and the lines stand in the order of the keys.
pub proof fn law_options_text(options: HashMap<String, String>, text: String)
    requires
        text@ == tsv_text(sorted_entries(text_map(options@))),
    ensures
        exists|s: Seq<(Seq<char>, Seq<char>)>|
            {
                &&& text@ == #[trigger] tsv_text(s)
                &&& forall|key: String| #[trigger]
                    options@.contains_key(key) ==> exists|i: int|
                        0 <= i < s.len() && (#[trigger] s[i]).0 == key@
                &&& forall|i: int|
                    0 <= i < s.len() ==> exists|key: String| #[trigger]
                        options@.contains_key(key) && key@ == (#[trigger] s[i]).0
                            && options@[key]@ == s[i].1
                &&& forall|i: int, j: int|
                    0 <= i < j < s.len() ==> (#[trigger] s[i]).0 != (#[trigger] s[j]).0 && text_le(
                        s[i].0,
                        s[j].0,
                    )
            },
{
    let m = text_map(options@);
    let s = sorted_entries(m);
    law_options_are_listed(options);
    law_text_map(options@);
    assert forall|key: String| #[trigger] options@.contains_key(key) implies exists|i: int|
        0 <= i < s.len() && (#[trigger] s[i]).0 == key@ by {
        assert(m.contains_key(key@));
    }
    assert forall|i: int| 0 <= i < s.len() implies exists|key: String| #[trigger]
        options@.contains_key(key) && key@ == (#[trigger] s[i]).0 && options@[key]@ == s[i].1 by {
        assert(m.contains_key(s[i].0));
    }
    assert(text@ == tsv_text(s));
}

/// Storage options of which no key and no value holds the character `c` are written without it, if
/// it is neither a tab nor a line feed.
pub proof fn law_options_text_adds_separators_alone(options: HashMap<String, String>, c: char)
    requires
        c != '\t',
        c != '\n',
        forall|key: String| #[trigger]
            options@.contains_key(key) ==> !has_char(key@, c) && !has_char(options@[key]@, c),
    ensures
        !has_char(tsv_text(sorted_entries(text_map(options@))), c),
{
    let m = text_map(options@);
    let s = sorted_entries(m);
    law_options_are_listed(options);
    law_text_map(options@);
    let rows = s.map_values(|p: (Seq<char>, Seq<char>)| entry_line(p));
    assert forall|i: int| 0 <= i < rows.len() implies !has_char(#[trigger] rows[i], c) by {
        let key = s[i].0;
        let value = s[i].1;
        assert(m.contains_key(key));
        let k = choose|k: String| #[trigger]
            options@.contains_key(k) && k@ == key && m[key] == options@[k]@;
        assert(!has_char(k@, c) && !has_char(options@[k]@, c));
        assert(rows[i] == key.push('\t') + value);
        if has_char(rows[i], c) {
            let j = choose|j: int| 0 <= j < rows[i].len() && rows[i][j] == c;
            if j < key.len() {
                assert(key[j] == c);
            } else if j > key.len() {
                assert(value[j - key.len() - 1] == c);
            }
        }
    }
    crate::text::law_join_adds_separators_alone(rows, '\n', c);
}

/// The texts of pairs are the texts of each, in order.
pub proof fn law_pair_texts_are_kept(s: Seq<(String, String)>)
    ensures
        pair_texts(s).len() == s.len(),
        forall|i: int|
            0 <= i < s.len() ==> (#[trigger] pair_texts(s)[i]).0 == s[i].0@ && pair_texts(s)[i].1
                == s[i].1@,
{
}

} // verus!
