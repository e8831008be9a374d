//! The query of the refresh endpoint: which sources a caller names.

use vstd::prelude::*;

verus! {

/// Whether the character is white space, as Unicode defines it.
pub open spec fn is_space(c: char) -> bool {
    let code = c as u32;
    ||| 0x09 <= code <= 0x0d
    ||| code == 0x20
    ||| code == 0x85
    ||| code == 0xa0
    ||| code == 0x1680
    ||| 0x2000 <= code <= 0x200a
    ||| code == 0x2028
    ||| code == 0x2029
    ||| code == 0x202f
    ||| code == 0x205f
    ||| code == 0x3000
}

/// The text without the white space at its two ends.
pub open spec fn trimmed(s: Seq<char>) -> Seq<char>
    decreases s.len(),
{
    if s.len() > 0 && is_space(s[0]) {
        trimmed(s.skip(1))
    } else if s.len() > 0 && is_space(s.last()) {
        trimmed(s.drop_last())
    } else {
        s
    }
}

/// How many characters stand before the first comma, or before the end.
pub open spec fn before_comma(s: Seq<char>) -> int
    decreases s.len(),
{
    if s.len() == 0 || s[0] == ',' {
        0
    } else {
        1 + before_comma(s.skip(1))
    }
}

/// The pieces that commas part the text into, each trimmed. A text without a
/// comma is one piece.
pub open spec fn pieces(s: Seq<char>) -> Seq<Seq<char>>
    decreases s.len(),
{
    if 0 <= before_comma(s) < s.len() {
        seq![trimmed(s.take(before_comma(s)))] + pieces(s.skip(before_comma(s) + 1))
    } else {
        seq![trimmed(s)]
    }
}

/// The sources that are refreshed where the caller names none.
pub open spec fn default_source_list() -> Seq<char> {
    "apod,neo,flr,cme,spacex"@
}

fn is_white(c: char) -> (b: bool)
    ensures
        b == is_space(c),
{
    let code: u32 = c as u32;
    (0x09 <= code && code <= 0x0d) || code == 0x20 || code == 0x85 || code == 0xa0 || code == 0x1680
        || (0x2000 <= code && code <= 0x200a) || code == 0x2028 || code == 0x2029 || code == 0x202f
        || code == 0x205f || code == 0x3000
}

proof fn lemma_before_comma_is(s: Seq<char>, n: int)
    requires
        0 <= n <= s.len(),
        forall|j: int| 0 <= j < n ==> s[j] != ',',
        n < s.len() ==> s[n] == ',',
    ensures
        before_comma(s) == n,
    decreases n,
{
    if n > 0 {
        let rest = s.skip(1);
        assert forall|j: int| 0 <= j < n - 1 implies rest[j] != ',' by {
            assert(rest[j] == s[j + 1]);
        }
        lemma_before_comma_is(rest, n - 1);
    }
}

proof fn lemma_trimmed(s: Seq<char>, from: int, to: int)
    requires
        0 <= from <= to <= s.len(),
        forall|j: int| 0 <= j < from ==> is_space(#[trigger] s[j]),
        forall|j: int| to <= j < s.len() ==> is_space(#[trigger] s[j]),
        from < to ==> !is_space(s[from]) && !is_space(s[to - 1]),
    ensures
        trimmed(s) == s.subrange(from, to),
    decreases s.len(),
{
    if from > 0 {
        let rest = s.skip(1);
        assert(is_space(s[0]));
        assert forall|j: int| 0 <= j < from - 1 implies is_space(#[trigger] rest[j]) by {
            assert(rest[j] == s[j + 1]);
        }
        assert forall|j: int| to - 1 <= j < rest.len() implies is_space(#[trigger] rest[j]) by {
            assert(rest[j] == s[j + 1]);
        }
        lemma_trimmed(rest, from - 1, to - 1);
        assert(rest.subrange(from - 1, to - 1) =~= s.subrange(from, to));
    } else if to < s.len() {
        if to == 0 {
            assert(is_space(s[0]));
            let rest = s.skip(1);
            assert forall|j: int| 0 <= j < rest.len() implies is_space(#[trigger] rest[j]) by {
                assert(rest[j] == s[j + 1]);
            }
            lemma_trimmed(rest, 0, 0);
            assert(rest.subrange(0, 0) =~= s.subrange(0, 0));
        } else {
            let rest = s.drop_last();
            assert(is_space(s[s.len() - 1]));
            assert forall|j: int| to <= j < rest.len() implies is_space(#[trigger] rest[j]) by {
                assert(rest[j] == s[j]);
            }
            lemma_trimmed(rest, 0, to);
            assert(rest.subrange(0, to) =~= s.subrange(0, to));
        }
    } else {
        assert(s.subrange(0, s.len() as int) =~= s);
    }
}

/// The text without the white space at its two ends.
pub fn trim(text: &str) -> (out: String)
    ensures
        out@ == trimmed(text@),
{
    let len = text.unicode_len();
    let mut from: usize = 0;
    while from < len && is_white(text.get_char(from))
        invariant
            from <= len,
            len == text@.len(),
            forall|j: int| 0 <= j < from ==> is_space(#[trigger] text@[j]),
        decreases len - from,
    {
        from = from + 1;
    }
    let mut to: usize = len;
    while to > from && is_white(text.get_char(to - 1))
        invariant
            from <= to <= len,
            len == text@.len(),
            forall|j: int| to <= j < len ==> is_space(#[trigger] text@[j]),
        decreases to,
    {
        to = to - 1;
    }
    proof {
        lemma_trimmed(text@, from as int, to as int);
    }
    text.substring_char(from, to).to_owned()
}

/// The sources that are refreshed where the caller names none.
pub fn default_sources() -> (list: String)
    ensures
        list@ == default_source_list(),
{
    String::from_str("apod,neo,flr,cme,spacex")
}

/// The query of the refresh endpoint.
#[derive(Debug)]
pub struct RefreshQuery {
    src: String,
}

/// The pieces by their characters.
pub open spec fn list_view(list: Seq<String>) -> Seq<Seq<char>> {
    Seq::new(list.len(), |i: int| list[i]@)
}

impl RefreshQuery {
    /// The list of sources as the caller wrote it.
    pub closed spec fn list(&self) -> Seq<char> {
        self.src@
    }

    /// The query with the list that the caller gave, or with the default list
    /// where the caller gave none.
    pub fn new(src: Option<String>) -> (query: Self)
        ensures
            query.list() == match src {
                Some(list) => list@,
                None => default_source_list(),
            },
    {
        match src {
            Some(list) => RefreshQuery { src: list },
            None => RefreshQuery { src: default_sources() },
        }
    }

    /// The names in the list: the pieces between its commas, each without the
    /// white space around it.
    pub fn sources(&self) -> (names: Vec<String>)
        ensures
            list_view(names@) == pieces(self.list()),
    {
        let text = self.src.as_str();
        let len = text.unicode_len();
        let mut names: Vec<String> = Vec::new();
        let mut start: usize = 0;
        let mut i: usize = 0;
        proof {
            assert(text@.skip(0) =~= text@);
            assert(list_view(names@) + pieces(text@) =~= pieces(text@));
        }
        while i < len
            invariant
                start <= i <= len,
                len == text@.len(),
                text@ == self.list(),
                forall|j: int| start <= j < i ==> text@[j] != ',',
                pieces(text@) == list_view(names@) + pieces(text@.skip(start as int)),
            decreases len - i,
        {
            if text.get_char(i) == ',' {
                let ghost rest = text@.skip(start as int);
                let ghost got = list_view(names@);
                proof {
                    assert forall|j: int| 0 <= j < i - start implies rest[j] != ',' by {
                        assert(rest[j] == text@[start + j]);
                    }
                    assert(rest[i - start] == text@[i as int]);
                    lemma_before_comma_is(rest, i - start);
                    assert(rest.take(i - start) =~= text@.subrange(start as int, i as int));
                    assert(rest.skip(i - start + 1) =~= text@.skip(i + 1));
                }
                names.push(trim(text.substring_char(start, i)));
                proof {
                    assert(list_view(names@) =~= got + seq![trimmed(rest.take(i - start))]);
                    assert(got + (seq![trimmed(rest.take(i - start))] + pieces(text@.skip(i + 1)))
                        =~= list_view(names@) + pieces(text@.skip(i + 1)));
                }
                start = i + 1;
            }
            i = i + 1;
        }
        let ghost rest = text@.skip(start as int);
        let ghost got = list_view(names@);
        proof {
            assert forall|j: int| 0 <= j < rest.len() implies rest[j] != ',' by {
                assert(rest[j] == text@[start + j]);
            }
            lemma_before_comma_is(rest, rest.len() as int);
            assert(rest =~= text@.subrange(start as int, len as int));
        }
        names.push(trim(text.substring_char(start, len)));
        proof {
            assert(list_view(names@) =~= got + seq![trimmed(rest)]);
        }
        names
    }
}

} // verus!
