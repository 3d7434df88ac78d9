//! Text as characters: how strings, bytes and character sequences turn into
//! one another, how a text is searched, and how lists of texts are kept.

use vstd::prelude::*;
use vstd::string::StringExecFns;
use vstd::string::StringSliceAdditionalSpecFns;
use vstd::utf8::{decode_utf8, valid_utf8};

verus! {

/// The texts that a sequence of character vectors holds.
pub open spec fn texts(items: Seq<Vec<char>>) -> Seq<Seq<char>> {
    items.map_values(|item: Vec<char>| item@)
}

/// The texts that a sequence of strings holds.
pub open spec fn strings(items: Seq<String>) -> Seq<Seq<char>> {
    items.map_values(|item: String| item@)
}

/// `String::push` appends one character to the string.
pub assume_specification[ String::push ](s: &mut String, c: char)
    ensures
        final(s)@ == old(s)@.push(c),
;

/// Why bytes are not valid UTF-8, as `core::str::from_utf8` reports it.
#[verifier::external_type_specification]
#[verifier::external_body]
pub struct ExUtf8Error(core::str::Utf8Error);

/// `core::str::from_utf8` accepts exactly the byte sequences that are valid
/// UTF-8, and hands back the same bytes as a string.
pub assume_specification<'a>[ core::str::from_utf8 ](v: &'a [u8]) -> (res: Result<
    &'a str,
    core::str::Utf8Error,
>)
    ensures
        res is Ok <==> valid_utf8(v@),
        res is Ok ==> res->Ok_0.spec_bytes() == v@,
;

/// What lossy decoding makes of a byte sequence: its text where it is valid
/// UTF-8, and otherwise a text in which replacement characters stand for what
/// could not be decoded.
pub uninterp spec fn lossy_text(bytes: Seq<u8>) -> Seq<char>;

/// `String::from_utf8_lossy` decodes bytes into text and never fails. The
/// contract names the text it gives, and says that valid UTF-8 is decoded
/// as it stands.
#[verifier::external_body]
pub(crate) fn decode_lossy(bytes: &[u8]) -> (text: String)
    ensures
        text@ == lossy_text(bytes@),
        valid_utf8(bytes@) ==> text@ == decode_utf8(bytes@),
{
    String::from_utf8_lossy(bytes).into_owned()
}

/// The characters of `s`, in order.
pub fn chars_of(s: &str) -> (chars: Vec<char>)
    ensures
        chars@ == s@,
{
    let mut chars: Vec<char> = Vec::new();
    for c in it: s.chars()
        invariant
            it.seq() == s@,
            chars@ == s@.take(it.index() as int),
    {
        chars.push(c);
        assert(s@.take(it.index() + 1) =~= s@.take(it.index() as int).push(c));
    }
    assert(s@.take(s@.len() as int) =~= s@);
    chars
}

/// The string made of `chars`, in order.
pub fn string_of(chars: &Vec<char>) -> (s: String)
    ensures
        s@ == chars@,
{
    let mut s = String::new();
    let mut i: usize = 0;
    while i < chars.len()
        invariant
            i <= chars.len(),
            s@ == chars@.take(i as int),
        decreases chars.len() - i,
    {
        s.push(chars[i]);
        assert(chars@.take(i + 1) =~= chars@.take(i as int).push(chars@[i as int]));
        i = i + 1;
    }
    assert(chars@.take(chars@.len() as int) =~= chars@);
    s
}

/// The texts of `items` as strings.
pub fn strings_of(items: &Vec<Vec<char>>) -> (made: Vec<String>)
    ensures
        strings(made@) == texts(items@),
{
    let mut made: Vec<String> = Vec::new();
    let mut i: usize = 0;
    while i < items.len()
        invariant
            i <= items.len(),
            strings(made@) == texts(items@).take(i as int),
        decreases items.len() - i,
    {
        let item = string_of(&items[i]);
        let ghost before = made@;
        made.push(item);
        assert(strings(made@) =~= strings(before).push(item@));
        assert(strings(made@) =~= texts(items@).take(i + 1));
        i = i + 1;
    }
    assert(texts(items@).take(items.len() as int) =~= texts(items@));
    made
}

/// Decodes UTF-8 bytes into characters; `None` where the bytes are not valid
/// UTF-8.
pub fn decode(bytes: &[u8]) -> (chars: Option<Vec<char>>)
    ensures
        chars is Some <==> valid_utf8(bytes@),
        chars is Some ==> chars->Some_0@ == decode_utf8(bytes@),
{
    match core::str::from_utf8(bytes) {
        Ok(s) => {
            proof {
                vstd::utf8::encode_utf8_decode_utf8(s@);
            }
            Some(chars_of(s))
        },
        Err(_) => None,
    }
}

/// The text `a` followed by the text `b`.
pub fn appended(a: &str, b: &str) -> (joined: String)
    ensures
        joined@ == a@ + b@,
{
    let mut joined = a.to_owned();
    joined.append(b);
    joined
}

/// The characters of `v` from position `lo` up to position `hi`.
pub fn slice_of(v: &Vec<char>, lo: usize, hi: usize) -> (part: Vec<char>)
    requires
        lo <= hi <= v.len(),
    ensures
        part@ == v@.subrange(lo as int, hi as int),
{
    let mut part: Vec<char> = Vec::new();
    let mut i: usize = lo;
    while i < hi
        invariant
            lo <= i <= hi <= v.len(),
            part@ == v@.subrange(lo as int, i as int),
        decreases hi - i,
    {
        part.push(v[i]);
        assert(v@.subrange(lo as int, i + 1) =~= v@.subrange(lo as int, i as int).push(v@[i as int]));
        i = i + 1;
    }
    part
}

/// A copy of each of `items`, in order.
pub fn clone_strings(items: &Vec<String>) -> (copy: Vec<String>)
    ensures
        strings(copy@) == strings(items@),
{
    let mut copy: Vec<String> = Vec::new();
    let mut i: usize = 0;
    while i < items.len()
        invariant
            i <= items.len(),
            strings(copy@) == strings(items@).take(i as int),
        decreases items.len() - i,
    {
        let item = items[i].clone();
        let ghost before = copy@;
        copy.push(item);
        assert(strings(copy@) =~= strings(before).push(item@));
        assert(strings(copy@) =~= strings(items@).take(i + 1));
        i = i + 1;
    }
    assert(strings(items@).take(items.len() as int) =~= strings(items@));
    copy
}

/// Appends `item` to `items`.
pub fn push_string(items: &mut Vec<String>, item: String)
    ensures
        strings(final(items)@) == strings(old(items)@).push(item@),
{
    items.push(item);
    assert(strings(items@) =~= strings(old(items)@).push(item@));
}

/// Whether `pat` stands in `hay` starting at position `i`.
pub open spec fn occurs_at(hay: Seq<char>, pat: Seq<char>, i: int) -> bool {
    &&& 0 <= i
    &&& i + pat.len() <= hay.len()
    &&& hay.subrange(i, i + pat.len()) == pat
}

/// Whether `pat` stands somewhere in `hay`.
pub open spec fn contains_text(hay: Seq<char>, pat: Seq<char>) -> bool {
    exists|i: int| occurs_at(hay, pat, i)
}

/// Tests whether `pat` stands in `hay` at position `i`.
pub fn matches_at(hay: &Vec<char>, pat: &Vec<char>, i: usize) -> (found: bool)
    ensures
        found == occurs_at(hay@, pat@, i as int),
{
    if pat.len() > hay.len() || i > hay.len() - pat.len() {
        return false;
    }
    let mut k: usize = 0;
    while k < pat.len()
        invariant
            k <= pat.len(),
            i + pat.len() <= hay.len(),
            forall|j: int| 0 <= j < k ==> hay@[i + j] == pat@[j],
        decreases pat.len() - k,
    {
        if hay[i + k] != pat[k] {
            proof {
                let sub = hay@.subrange(i as int, i + pat.len());
                assert(sub[k as int] == hay@[i + k]);
            }
            return false;
        }
        k = k + 1;
    }
    assert(hay@.subrange(i as int, i + pat.len()) =~= pat@);
    true
}

/// Tests whether `a` and `b` hold the same text.
pub fn same_text(a: &Vec<char>, b: &Vec<char>) -> (same: bool)
    ensures
        same == (a@ == b@),
{
    if a.len() != b.len() {
        return false;
    }
    let same = matches_at(a, b, 0);
    assert(a@.subrange(0, a.len() as int) =~= a@);
    same
}

/// Finds the first position at or after `from` at which `pat` stands in
/// `hay`.
pub fn find_text(hay: &Vec<char>, pat: &Vec<char>, from: usize) -> (found: Option<usize>)
    ensures
        match found {
            Some(k) => from <= k && occurs_at(hay@, pat@, k as int) && forall|j: int|
                from <= j < k ==> !occurs_at(hay@, pat@, j),
            None => forall|j: int| from <= j ==> !occurs_at(hay@, pat@, j),
        },
{
    if from > hay.len() {
        return None;
    }
    let mut k: usize = from;
    while k < hay.len()
        invariant
            from <= k <= hay.len(),
            forall|j: int| from <= j < k ==> !occurs_at(hay@, pat@, j),
        decreases hay.len() - k,
    {
        if matches_at(hay, pat, k) {
            return Some(k);
        }
        k = k + 1;
    }
    if matches_at(hay, pat, k) {
        Some(k)
    } else {
        None
    }
}

/// Tests whether `pat` stands somewhere in `hay`.
pub fn has_text(hay: &Vec<char>, pat: &Vec<char>) -> (found: bool)
    ensures
        found == contains_text(hay@, pat@),
{
    find_text(hay, pat, 0).is_some()
}

/// The items of `s` in the order of their first occurrence, each once.
pub open spec fn distinct(s: Seq<Seq<char>>) -> Seq<Seq<char>>
    decreases s.len(),
{
    if s.len() == 0 {
        Seq::empty()
    } else {
        let before = distinct(s.drop_last());
        if before.contains(s.last()) {
            before
        } else {
            before.push(s.last())
        }
    }
}

/// Tests whether `item` is one of `items`.
pub fn contains_string(items: &Vec<String>, item: &String) -> (found: bool)
    ensures
        found == strings(items@).contains(item@),
{
    let mut i: usize = 0;
    while i < items.len()
        invariant
            i <= items.len(),
            forall|k: int| 0 <= k < i ==> strings(items@)[k] != item@,
        decreases items.len() - i,
    {
        if items[i] == *item {
            assert(strings(items@)[i as int] == item@);
            return true;
        }
        i = i + 1;
    }
    false
}

/// The strings of `items`, each once, in the order of their first
/// occurrence.
pub fn distinct_strings(items: Vec<String>) -> (kept: Vec<String>)
    ensures
        strings(kept@) == distinct(strings(items@)),
{
    let ghost all = strings(items@);
    let mut kept: Vec<String> = Vec::new();
    assert(strings(kept@) =~= distinct(all.take(0)));
    for item in it: items
        invariant
            strings(it.seq()) == all,
            strings(kept@) == distinct(all.take(it.index() as int)),
    {
        let ghost before = kept@;
        proof {
            let done = all.take(it.index() as int);
            let next = all.take(it.index() + 1);
            assert(next.drop_last() =~= done);
            assert(next.last() == item@);
        }
        if !contains_string(&kept, &item) {
            kept.push(item);
            assert(strings(kept@) =~= strings(before).push(item@));
        }
    }
    assert(all.take(all.len() as int) =~= all);
    kept
}

/// The texts of `items` in one text, with `separator` between each two.
pub open spec fn joined_list(items: Seq<Seq<char>>, separator: Seq<char>) -> Seq<char>
    decreases items.len(),
{
    if items.len() == 0 {
        Seq::empty()
    } else if items.len() == 1 {
        items[0]
    } else {
        joined_list(items.drop_last(), separator) + separator + items.last()
    }
}

/// Joins `items` into one string, with `separator` between each two.
pub fn join_list(items: &Vec<String>, separator: &str) -> (list: String)
    ensures
        list@ == joined_list(strings(items@), separator@),
{
    let mut list = String::new();
    let mut i: usize = 0;
    let ghost all = strings(items@);
    while i < items.len()
        invariant
            i <= items.len(),
            all == strings(items@),
            list@ == joined_list(all.take(i as int), separator@),
        decreases items.len() - i,
    {
        proof {
            assert(all.take(i + 1).drop_last() =~= all.take(i as int));
            assert(all.take(i + 1).last() == items@[i as int]@);
        }
        if i > 0 {
            list.append(separator);
        } else {
            assert(list@ + items@[0]@ =~= items@[0]@);
            assert(all.take(1)[0] == items@[0]@);
        }
        list.append(items[i].as_str());
        i = i + 1;
    }
    assert(all.take(items.len() as int) =~= all);
    list
}

/// `distinct` keeps every text of a sequence, and none of them twice.
pub proof fn lemma_distinct(s: Seq<Seq<char>>)
    ensures
        distinct(s).no_duplicates(),
        forall|t: Seq<char>| distinct(s).contains(t) <==> s.contains(t),
    decreases s.len(),
{
    if s.len() > 0 {
        let front = s.drop_last();
        let before = distinct(front);
        lemma_distinct(front);
        assert forall|t: Seq<char>| distinct(s).contains(t) <==> s.contains(t) by {
            if s.contains(t) {
                let i = choose|i: int| 0 <= i < s.len() && s[i] == t;
                if i < s.len() - 1 {
                    assert(front[i] == t);
                    assert(front.contains(t));
                    assert(before.contains(t));
                }
                if !before.contains(s.last()) {
                    assert(before.push(s.last())[before.len() as int] == s.last());
                    if before.contains(t) {
                        let k = choose|k: int| 0 <= k < before.len() && before[k] == t;
                        assert(before.push(s.last())[k] == t);
                    }
                }
            }
            if distinct(s).contains(t) {
                let k = choose|k: int| 0 <= k < distinct(s).len() && distinct(s)[k] == t;
                if k < before.len() {
                    assert(before[k] == t);
                    assert(before.contains(t));
                    assert(front.contains(t));
                    let i = choose|i: int| 0 <= i < front.len() && front[i] == t;
                    assert(s[i] == t);
                } else {
                    assert(t == s.last());
                    assert(s[s.len() - 1] == t);
                }
            }
        }
    }
}

/// Texts that a sequence holds already add nothing to its distinct texts.
pub proof fn lemma_distinct_absorbs(s: Seq<Seq<char>>, more: Seq<Seq<char>>)
    requires
        forall|i: int| 0 <= i < more.len() ==> s.contains(#[trigger] more[i]),
    ensures
        distinct(s + more) == distinct(s),
    decreases more.len(),
{
    if more.len() == 0 {
        assert(s + more =~= s);
    } else {
        let front = more.drop_last();
        assert forall|i: int| 0 <= i < front.len() implies s.contains(#[trigger] front[i]) by {
            assert(front[i] == more[i]);
        }
        lemma_distinct_absorbs(s, front);
        assert((s + more).drop_last() =~= s + front);
        assert((s + more).last() == more.last());
        lemma_distinct(s);
        assert(s.contains(more[more.len() - 1]));
        assert(distinct(s).contains(more.last()));
    }
}

} // verus!
