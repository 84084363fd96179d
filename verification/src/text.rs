//! Splitting a comma-separated list into its entries, and joining entries
//! with a separator.

use vstd::prelude::*;
use vstd::std_specs::iter::IteratorSpec;
use vstd::string::StrSliceExecFns;
use vstd::string::StringExecFns;

verus! {

/// The views of the strings of `items`, in order.
pub open spec fn texts(items: Seq<String>) -> Seq<Seq<char>> {
    Seq::new(items.len(), |i: int| items[i]@)
}

/// No character of `s` is a comma.
pub open spec fn comma_free(s: Seq<char>) -> bool {
    forall|i: int| 0 <= i < s.len() ==> s[i] != ','
}

/// The position of the first comma of `s`, or the length of `s` if it has none.
pub open spec fn first_comma(s: Seq<char>) -> int
    decreases s.len(),
{
    if s.len() == 0 || s[0] == ',' {
        0
    } else {
        1 + first_comma(s.drop_first())
    }
}

/// The entries of the comma-separated list `s`: what stands before its first
/// comma, followed by the entries of what stands after that comma. Nothing is
/// trimmed and nothing is dropped: a list with `n` commas has `n + 1` entries,
/// and the empty list has one entry, which is empty.
pub open spec fn split_commas(s: Seq<char>) -> Seq<Seq<char>>
    decreases s.len(),
    via split_commas_decreases
{
    let i = first_comma(s);
    if i >= s.len() {
        seq![s]
    } else {
        seq![s.subrange(0, i)] + split_commas(s.subrange(i + 1, s.len() as int))
    }
}

#[via_fn]
proof fn split_commas_decreases(s: Seq<char>) {
    lemma_first_comma(s);
}

/// `entries` joined into one text, with `sep` between neighbours.
pub open spec fn join_with(entries: Seq<Seq<char>>, sep: Seq<char>) -> Seq<char>
    decreases entries.len(),
{
    if entries.len() == 0 {
        Seq::empty()
    } else if entries.len() == 1 {
        entries[0]
    } else {
        entries[0] + sep + join_with(entries.drop_first(), sep)
    }
}

/// `first_comma` finds a comma, or the end, and no comma stands before it.
pub proof fn lemma_first_comma(s: Seq<char>)
    ensures
        0 <= first_comma(s) <= s.len(),
        first_comma(s) < s.len() ==> s[first_comma(s)] == ',',
        comma_free(s.subrange(0, first_comma(s))),
    decreases s.len(),
{
    if s.len() == 0 || s[0] == ',' {
    } else {
        lemma_first_comma(s.drop_first());
        let i = first_comma(s);
        assert forall|j: int| 0 <= j < i implies #[trigger] s.subrange(0, i)[j] != ',' by {
            if j > 0 {
                assert(s.drop_first().subrange(0, i - 1)[j - 1] == s[j]);
            }
        }
    }
}

/// A position that holds a comma, with none before it, is the first comma.
pub proof fn lemma_first_comma_at(s: Seq<char>, i: int)
    requires
        0 <= i <= s.len(),
        comma_free(s.subrange(0, i)),
        i < s.len() ==> s[i] == ',',
    ensures
        first_comma(s) == i,
    decreases s.len(),
{
    if i == 0 {
    } else {
        assert(s.subrange(0, i)[0] == s[0]);
        let t = s.drop_first();
        assert forall|j: int| 0 <= j < i - 1 implies #[trigger] t.subrange(0, i - 1)[j] != ',' by {
            assert(s.subrange(0, i)[j + 1] == t[j]);
        }
        lemma_first_comma_at(t, i - 1);
    }
}

/// Appending a string to a list appends its view to the list's texts.
pub proof fn lemma_texts_push(items: Seq<String>, item: String)
    ensures
        texts(items.push(item)) == texts(items).push(item@),
{
    assert(texts(items.push(item)) =~= texts(items).push(item@));
}

/// Splits a comma-separated list into its entries.
pub fn split_profiles(csv: &str) -> (entries: Vec<String>)
    ensures
        texts(entries@) == split_commas(csv@),
{
    broadcast use vstd::string::group_string_axioms;

    let n = csv.unicode_len();
    let mut entries: Vec<String> = Vec::new();
    let mut it = csv.chars();
    let mut start: usize = 0;
    let mut i: usize = 0;
    assert(texts(entries@) =~= Seq::<Seq<char>>::empty());
    assert(csv@.skip(0) =~= csv@);
    loop
        invariant
            n == csv@.len(),
            start <= i <= n,
            it.remaining() == csv@.skip(i as int),
            comma_free(csv@.subrange(start as int, i as int)),
            split_commas(csv@) == texts(entries@) + split_commas(csv@.skip(start as int)),
        decreases n - i,
    {
        let ghost rest = csv@.skip(start as int);
        let ghost before = entries@;
        match it.next() {
            None => {
                let piece = csv.substring_char(start, i);
                entries.push(String::from_str(piece));
                proof {
                    assert(rest.subrange(0, rest.len() as int) =~= csv@.subrange(
                        start as int,
                        i as int,
                    ));
                    lemma_first_comma_at(rest, rest.len() as int);
                    assert(rest =~= piece@);
                    lemma_texts_push(before, entries@.last());
                    assert(entries@ =~= before.push(entries@.last()));
                    assert(texts(entries@) =~= texts(before) + seq![rest]);
                }
                return entries;
            },
            Some(c) => {
                if c == ',' {
                    let piece = csv.substring_char(start, i);
                    entries.push(String::from_str(piece));
                    proof {
                        let k = i - start;
                        assert(rest.subrange(0, k) =~= csv@.subrange(start as int, i as int));
                        lemma_first_comma_at(rest, k);
                        assert(rest.subrange(k + 1, rest.len() as int) =~= csv@.skip(i + 1));
                        lemma_texts_push(before, entries@.last());
                        assert(entries@ =~= before.push(entries@.last()));
                        assert(texts(entries@) + split_commas(csv@.skip(i + 1)) =~= texts(before)
                            + split_commas(rest));
                        assert(csv@.subrange(i + 1, i + 1) =~= Seq::<char>::empty());
                    }
                    start = i + 1;
                } else {
                    proof {
                        assert forall|j: int| 0 <= j < i + 1 - start implies #[trigger] csv@.subrange(
                            start as int,
                            i + 1,
                        )[j] != ',' by {
                            if j < i - start {
                                assert(csv@.subrange(start as int, i as int)[j] == csv@[start + j]);
                            }
                        }
                    }
                }
                i = i + 1;
            },
        }
    }
}

/// Joining one more entry appends the separator and the entry, except to nothing.
pub proof fn lemma_join_push(entries: Seq<Seq<char>>, last: Seq<char>, sep: Seq<char>)
    ensures
        join_with(entries.push(last), sep) == if entries.len() == 0 {
            last
        } else {
            join_with(entries, sep) + sep + last
        },
    decreases entries.len(),
{
    let all = entries.push(last);
    if entries.len() == 0 {
    } else if entries.len() == 1 {
        assert(all.drop_first() =~= seq![last]);
        assert(join_with(seq![last], sep) == last);
        assert(join_with(all, sep) =~= entries[0] + sep + last);
    } else {
        lemma_join_push(entries.drop_first(), last, sep);
        assert(all.drop_first() =~= entries.drop_first().push(last));
        assert(all[0] == entries[0]);
        assert(join_with(all, sep) =~= join_with(entries, sep) + sep + last);
    }
}

/// No entry of a split list holds a comma.
pub proof fn lemma_split_comma_free(s: Seq<char>)
    ensures
        split_commas(s).len() >= 1,
        forall|i: int| 0 <= i < split_commas(s).len() ==> comma_free(#[trigger] split_commas(s)[i]),
    decreases s.len(),
{
    lemma_first_comma(s);
    let k = first_comma(s);
    if k >= s.len() {
        assert(s.subrange(0, k) =~= s);
    } else {
        lemma_split_comma_free(s.subrange(k + 1, s.len() as int));
    }
}

/// Joining the entries of a split list with commas gives the list back.
pub proof fn lemma_join_split(s: Seq<char>)
    ensures
        join_with(split_commas(s), seq![',']) == s,
    decreases s.len(),
{
    lemma_first_comma(s);
    let k = first_comma(s);
    if k >= s.len() {
    } else {
        let tail = s.subrange(k + 1, s.len() as int);
        lemma_join_split(tail);
        lemma_split_comma_free(tail);
        let parts = split_commas(s);
        assert(parts.drop_first() =~= split_commas(tail));
        assert(s =~= s.subrange(0, k) + seq![','] + tail);
    }
}

/// Splitting a comma-joined list of entries gives the entries back, provided
/// that there is at least one entry and that no entry holds a comma. An entry
/// with a comma in it does not come back: it is split in two.
pub proof fn lemma_split_join(entries: Seq<Seq<char>>)
    requires
        entries.len() >= 1,
        forall|i: int| 0 <= i < entries.len() ==> comma_free(#[trigger] entries[i]),
    ensures
        split_commas(join_with(entries, seq![','])) == entries,
    decreases entries.len(),
{
    let head = entries[0];
    let joined = join_with(entries, seq![',']);
    if entries.len() == 1 {
        assert(joined.subrange(0, joined.len() as int) =~= joined);
        lemma_first_comma_at(joined, joined.len() as int);
        assert(entries =~= seq![head]);
    } else {
        let rest = entries.drop_first();
        let tail = join_with(rest, seq![',']);
        lemma_split_join(rest);
        let k = head.len() as int;
        assert(joined.subrange(0, k) =~= head);
        assert(joined[k] == ',');
        lemma_first_comma_at(joined, k);
        assert(joined.subrange(k + 1, joined.len() as int) =~= tail);
        assert(entries =~= seq![head] + rest);
    }
}

/// A list in which some entry holds a comma is not what splitting its
/// comma-joined text gives: the comma inside the entry cannot be told from a
/// separator.
pub proof fn lemma_comma_is_not_kept(entries: Seq<Seq<char>>)
    requires
        exists|i: int| 0 <= i < entries.len() && !comma_free(#[trigger] entries[i]),
    ensures
        split_commas(join_with(entries, seq![','])) != entries,
{
    lemma_split_comma_free(join_with(entries, seq![',']));
}

/// Joins `names` into one string, with `separator` between neighbours.
pub fn join_names(names: &Vec<String>, separator: &str) -> (joined: String)
    ensures
        joined@ == join_with(texts(names@), separator@),
{
    let mut joined = String::new();
    let mut i: usize = 0;
    while i < names.len()
        invariant
            i <= names.len(),
            joined@ == join_with(texts(names@.take(i as int)), separator@),
        decreases names.len() - i,
    {
        proof {
            let done = names@.take(i as int);
            assert(names@.take(i + 1) =~= done.push(names@[i as int]));
            lemma_texts_push(done, names@[i as int]);
            lemma_join_push(texts(done), names@[i as int]@, separator@);
        }
        if i > 0 {
            joined.append(separator);
        }
        joined.append(names[i].as_str());
        i = i + 1;
    }
    assert(names@.take(i as int) =~= names@);
    joined
}

} // verus!
