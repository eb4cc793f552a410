//! Small operations on text: comparison, prefixes, joining and shortening.

use vstd::prelude::*;
use vstd::string::*;

verus! {

/// Whether two texts are equal, character by character.
pub fn same_text(a: &str, b: &str) -> (res: bool)
    ensures
        res == (a@ == b@),
{
    let n = a.unicode_len();
    if n != b.unicode_len() {
        return false;
    }
    let mut i: usize = 0;
    while i < n
        invariant
            i <= n,
            n == a@.len(),
            n == b@.len(),
            a@.take(i as int) == b@.take(i as int),
        decreases n - i,
    {
        if a.get_char(i) != b.get_char(i) {
            assert(a@[i as int] != b@[i as int]);
            return false;
        }
        assert(a@.take(i + 1) =~= a@.take(i as int).push(a@[i as int]));
        assert(b@.take(i + 1) =~= b@.take(i as int).push(b@[i as int]));
        i = i + 1;
    }
    assert(a@.take(n as int) =~= a@);
    assert(b@.take(n as int) =~= b@);
    true
}

/// Whether `s` begins with `prefix`.
pub open spec fn has_prefix(s: Seq<char>, prefix: Seq<char>) -> bool {
    prefix.len() <= s.len() && s.take(prefix.len() as int) == prefix
}

/// Whether `s` begins with `prefix`, as `str::starts_with` tells.
pub fn starts_with(s: &str, prefix: &str) -> (res: bool)
    ensures
        res == has_prefix(s@, prefix@),
{
    let n = prefix.unicode_len();
    if n > s.unicode_len() {
        return false;
    }
    let head = s.substring_char(0, n);
    same_text(head, prefix)
}

/// The items joined with `sep` between neighbours, as `[String]::join` does.
pub open spec fn joined(items: Seq<Seq<char>>, sep: Seq<char>) -> Seq<char>
    decreases items.len(),
{
    if items.len() == 0 {
        Seq::empty()
    } else if items.len() == 1 {
        items[0]
    } else {
        joined(items.drop_last(), sep) + sep + items.last()
    }
}

/// The character views of a list of strings.
pub open spec fn views(items: Seq<String>) -> Seq<Seq<char>> {
    items.map_values(|s: String| s@)
}

/// Joins the strings with `sep` between neighbours.
pub fn join(items: &[String], sep: &str) -> (res: String)
    ensures
        res@ == joined(views(items@), sep@),
{
    let mut res = String::new();
    let n = items.len();
    let mut i: usize = 0;
    while i < n
        invariant
            i <= n,
            n == items@.len(),
            res@ == joined(views(items@.take(i as int)), sep@),
        decreases n - i,
    {
        let ghost before = views(items@.take(i as int));
        assert(views(items@.take(i + 1)).drop_last() =~= before);
        if i > 0 {
            res.append(sep);
        } else {
            assert(views(items@.take(1)) =~= seq![items@[0]@]);
        }
        res.append(items[i].as_str());
        i = i + 1;
    }
    assert(items@.take(n as int) =~= items@);
    res
}

/// How many characters a description keeps before it is cut short.
pub const DESCRIPTION_LIMIT: usize = 150;

/// A text cut to its first 150 characters followed by `...` when it is longer
/// than that; otherwise the text itself.
pub open spec fn shortened(s: Seq<char>) -> Seq<char> {
    if s.len() > DESCRIPTION_LIMIT {
        s.take(DESCRIPTION_LIMIT as int) + "..."@
    } else {
        s
    }
}

/// Cuts a text to 150 characters and marks the cut with `...`.
pub fn shorten(s: &str) -> (res: String)
    ensures
        res@ == shortened(s@),
{
    if s.unicode_len() > DESCRIPTION_LIMIT {
        let mut res = String::from_str(s.substring_char(0, DESCRIPTION_LIMIT));
        res.append("...");
        res
    } else {
        String::from_str(s)
    }
}


/// A shortened description is never longer than 153 characters, and it keeps
/// the beginning of the text.
pub proof fn shortened_is_bounded_prefix(s: Seq<char>)
    ensures
        shortened(s).len() <= DESCRIPTION_LIMIT + 3,
        shortened(s).take(if s.len() < DESCRIPTION_LIMIT { s.len() as int } else { DESCRIPTION_LIMIT as int })
            == s.take(if s.len() < DESCRIPTION_LIMIT { s.len() as int } else { DESCRIPTION_LIMIT as int }),
{
    reveal_strlit("...");
    if s.len() > DESCRIPTION_LIMIT {
        assert(shortened(s).take(DESCRIPTION_LIMIT as int) =~= s.take(DESCRIPTION_LIMIT as int));
    }
}


/// A text starts with a prefix exactly when it is that prefix followed by
/// something: `prefix + rest` always starts with `prefix`, and a text that
/// starts with `prefix` is `prefix` followed by the remainder.
pub proof fn prefix_means_prefix_then_rest(s: Seq<char>, prefix: Seq<char>, rest: Seq<char>)
    ensures
        has_prefix(prefix + rest, prefix),
        has_prefix(s, prefix) ==> s == prefix + s.skip(prefix.len() as int),
        prefix.len() > s.len() ==> !has_prefix(s, prefix),
{
    assert((prefix + rest).take(prefix.len() as int) =~= prefix);
    if has_prefix(s, prefix) {
        assert(s =~= prefix + s.skip(prefix.len() as int));
    }
}

/// A description of at most 150 characters is kept as it is; a longer one
/// becomes exactly its first 150 characters followed by `...`.
pub proof fn shortened_keeps_short_and_cuts_long(s: Seq<char>)
    ensures
        s.len() <= 150 ==> shortened(s) == s,
        s.len() > 150 ==> shortened(s).len() == 153 && shortened(s).take(150) == s.take(150)
            && shortened(s).skip(150) == "..."@,
{
    reveal_strlit("...");
    if s.len() > 150 {
        assert(shortened(s).take(150) =~= s.take(150));
        assert(shortened(s).skip(150) =~= "..."@);
    }
}

} // verus!
