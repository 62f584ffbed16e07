//! Secret URNs: `urn:secrets-rs:<source_id>:<name>`.

use vstd::prelude::*;

use crate::error::{UrnParseError, UrnParseErrorView};
use crate::text::{ascii_lower_code, eq_ignore_ascii_case, eq_ignore_case};

verus! {

/// The scheme, `urn`.
pub open spec fn scheme_text() -> Seq<char> {
    seq!['u', 'r', 'n']
}

/// The namespace identifier, `secrets-rs`.
pub open spec fn nid_text() -> Seq<char> {
    seq!['s', 'e', 'c', 'r', 'e', 't', 's', '-', 'r', 's']
}

/// The fixed start of every URN this crate writes: `urn:secrets-rs:`.
pub open spec fn prefix_text() -> Seq<char> {
    scheme_text() + seq![':'] + nid_text() + seq![':']
}

/// A character that may stand in a `source_id`: the literal characters of the
/// RFC 8141 NSS `pchar` set without `:`, that is ASCII letters, digits and
/// `-._~!$&'()*+,;=@/`.
pub open spec fn is_source_id_char(c: char) -> bool {
    ||| 'a' <= c && c <= 'z'
    ||| 'A' <= c && c <= 'Z'
    ||| '0' <= c && c <= '9'
    ||| c == '-' || c == '.' || c == '_' || c == '~'
    ||| c == '!' || c == '$' || c == '&' || c == '\'' || c == '(' || c == ')'
    ||| c == '*' || c == '+' || c == ',' || c == ';' || c == '='
    ||| c == '@' || c == '/'
}

/// `s` is a valid `source_id`: not empty, and every character allowed.
pub open spec fn valid_source_id(s: Seq<char>) -> bool {
    &&& s.len() > 0
    &&& forall|i: int| 0 <= i < s.len() ==> is_source_id_char(#[trigger] s[i])
}

/// The index of the first `:` at or after `from`, or `s.len()` if there is none.
pub open spec fn next_colon(s: Seq<char>, from: int) -> int
    decreases s.len() - from,
{
    if from < 0 || from >= s.len() {
        s.len() as int
    } else if s[from] == ':' {
        from
    } else {
        next_colon(s, from + 1)
    }
}

/// The first three `:` of `s`: where each stands, `s.len()` once they run out.
pub open spec fn colon1(s: Seq<char>) -> int {
    next_colon(s, 0)
}

pub open spec fn colon2(s: Seq<char>) -> int {
    next_colon(s, colon1(s) + 1)
}

pub open spec fn colon3(s: Seq<char>) -> int {
    next_colon(s, colon2(s) + 1)
}

/// How many segments `s.splitn(4, ':')` yields: one more than the number of
/// colons, at most four.
pub open spec fn segment_count(s: Seq<char>) -> nat {
    if colon1(s) == s.len() {
        1
    } else if colon2(s) == s.len() {
        2
    } else if colon3(s) == s.len() {
        3
    } else {
        4
    }
}

/// The outcome of parsing `s` as a URN: the `source_id` and the `name`, or
/// the first error found, in the order scheme, NID, `source_id`, name.
/// Everything after the third `:` is the name, colons included.
pub open spec fn parse_urn(s: Seq<char>) -> Result<(Seq<char>, Seq<char>), UrnParseErrorView> {
    let n = segment_count(s);
    if n != 4 {
        Err(UrnParseErrorView::WrongSegmentCount(n))
    } else {
        let scheme = s.subrange(0, colon1(s));
        let nid = s.subrange(colon1(s) + 1, colon2(s));
        let source_id = s.subrange(colon2(s) + 1, colon3(s));
        let name = s.subrange(colon3(s) + 1, s.len() as int);
        if !eq_ignore_ascii_case(scheme, scheme_text()) {
            Err(UrnParseErrorView::InvalidScheme(scheme))
        } else if !eq_ignore_ascii_case(nid, nid_text()) {
            Err(UrnParseErrorView::InvalidNid(nid))
        } else if source_id.len() == 0 {
            Err(UrnParseErrorView::EmptySourceId)
        } else if !valid_source_id(source_id) {
            Err(UrnParseErrorView::InvalidSourceId(source_id))
        } else if name.len() == 0 {
            Err(UrnParseErrorView::EmptyName)
        } else {
            Ok((source_id, name))
        }
    }
}

/// The text of the URN with the given parts: `urn:secrets-rs:<source_id>:<name>`.
pub open spec fn urn_text(source_id: Seq<char>, name: Seq<char>) -> Seq<char> {
    prefix_text() + source_id + seq![':'] + name
}

/// A pair of parts that a URN can have: a valid `source_id` and a non-empty name.
pub open spec fn valid_parts(source_id: Seq<char>, name: Seq<char>) -> bool {
    valid_source_id(source_id) && name.len() > 0
}

/// A secret URN of the form `urn:secrets-rs:<source_id>:<name>`.
///
/// The scheme and NID are matched ignoring ASCII case when parsing; the
/// `source_id` and `name` are stored as written.
#[derive(Debug, Clone, PartialEq, Eq)]
pub struct Urn {
    /// Identifies which source holds this secret.
    pub source_id: String,
    /// The name of the secret within the source.
    pub name: String,
}

impl View for Urn {
    type V = (Seq<char>, Seq<char>);

    /// The `source_id` and the `name`.
    open spec fn view(&self) -> (Seq<char>, Seq<char>) {
        (self.source_id@, self.name@)
    }
}

/// Returns `true` if every character of `s` may stand in the `source_id`
/// position of a URN, and `s` is not empty.
pub fn is_valid_source_id(s: &str) -> (res: bool)
    ensures
        res == valid_source_id(s@),
{
    let n = s.unicode_len();
    if n == 0 {
        return false;
    }
    let mut i: usize = 0;
    while i < n
        invariant
            n == s@.len(),
            i <= n,
            forall|j: int| 0 <= j < i ==> is_source_id_char(#[trigger] s@[j]),
        decreases n - i,
    {
        if !source_id_char(s.get_char(i)) {
            return false;
        }
        i = i + 1;
    }
    true
}

/// Whether one character may stand in a `source_id`.
fn source_id_char(c: char) -> (res: bool)
    ensures
        res == is_source_id_char(c),
{
    ('a' <= c && c <= 'z') || ('A' <= c && c <= 'Z') || ('0' <= c && c <= '9') || c == '-'
        || c == '.' || c == '_' || c == '~' || c == '!' || c == '$' || c == '&' || c == '\''
        || c == '(' || c == ')' || c == '*' || c == '+' || c == ',' || c == ';' || c == '='
        || c == '@' || c == '/'
}

/// The index of the first `:` of `s` at or after `from`, or the length of `s`.
fn find_colon(s: &str, n: usize, from: usize) -> (res: usize)
    requires
        n == s@.len(),
        from <= n,
    ensures
        res == next_colon(s@, from as int),
        from <= res <= n,
{
    let mut i = from;
    while i < n
        invariant
            n == s@.len(),
            from <= i <= n,
            next_colon(s@, from as int) == next_colon(s@, i as int),
        decreases n - i,
    {
        if s.get_char(i) == ':' {
            return i;
        }
        i = i + 1;
    }
    i
}

impl Urn {
    /// Creates a `Urn` by parsing a URN string.
    pub fn parse(s: &str) -> (res: Result<Urn, UrnParseError>)
        ensures
            match res {
                Ok(u) => parse_urn(s@) == Ok::<_, UrnParseErrorView>(u@),
                Err(e) => parse_urn(s@) == Err::<(Seq<char>, Seq<char>), _>(e@),
            },
    {
        let n = s.unicode_len();
        let c1 = find_colon(s, n, 0);
        if c1 == n {
            return Err(UrnParseError::WrongSegmentCount(1));
        }
        let c2 = find_colon(s, n, c1 + 1);
        if c2 == n {
            return Err(UrnParseError::WrongSegmentCount(2));
        }
        let c3 = find_colon(s, n, c2 + 1);
        if c3 == n {
            return Err(UrnParseError::WrongSegmentCount(3));
        }
        let scheme = s.substring_char(0, c1);
        let nid = s.substring_char(c1 + 1, c2);
        let source_id = s.substring_char(c2 + 1, c3);
        let name = s.substring_char(c3 + 1, n);
        let scheme_lit = "urn";
        let nid_lit = "secrets-rs";
        proof {
            reveal_strlit("urn");
            reveal_strlit("secrets-rs");
        }
        assert(scheme_lit@ =~= scheme_text());
        assert(nid_lit@ =~= nid_text());
        if !eq_ignore_case(scheme, scheme_lit) {
            return Err(UrnParseError::InvalidScheme(scheme.to_owned()));
        }
        if !eq_ignore_case(nid, nid_lit) {
            return Err(UrnParseError::InvalidNid(nid.to_owned()));
        }
        if source_id.is_empty() {
            return Err(UrnParseError::EmptySourceId);
        }
        if !is_valid_source_id(source_id) {
            return Err(UrnParseError::InvalidSourceId(source_id.to_owned()));
        }
        if name.is_empty() {
            return Err(UrnParseError::EmptyName);
        }
        Ok(Urn { source_id: source_id.to_owned(), name: name.to_owned() })
    }

    /// The text of this URN, `urn:secrets-rs:<source_id>:<name>`, with the
    /// scheme and NID in lower case.
    pub fn to_string(&self) -> (res: String)
        ensures
            res@ == urn_text(self.source_id@, self.name@),
    {
        let prefix = "urn:secrets-rs:";
        let colon = ":";
        proof {
            reveal_strlit("urn:secrets-rs:");
            reveal_strlit(":");
        }
        assert(prefix@ =~= prefix_text());
        let mut out = String::from_str(prefix);
        out.append(self.source_id.as_str());
        out.append(colon);
        out.append(self.name.as_str());
        assert(out@ =~= urn_text(self.source_id@, self.name@));
        out
    }
}


impl core::str::FromStr for Urn {
    type Err = UrnParseError;

    /// Parses a URN string, as [`Urn::parse`] does.
    fn from_str(s: &str) -> (res: Result<Self, Self::Err>)
        ensures
            match res {
                Ok(u) => parse_urn(s@) == Ok::<_, UrnParseErrorView>(u@),
                Err(e) => parse_urn(s@) == Err::<(Seq<char>, Seq<char>), _>(e@),
            },
    {
        Urn::parse(s)
    }
}

/// Skipping a stretch without colons does not change where the next colon is.
proof fn lemma_next_colon_skip(s: Seq<char>, from: int, to: int)
    requires
        0 <= from <= to <= s.len(),
        forall|j: int| from <= j < to ==> s[j] != ':',
    ensures
        next_colon(s, from) == next_colon(s, to),
    decreases to - from,
{
    if from < to {
        lemma_next_colon_skip(s, from + 1, to);
    }
}

/// What `next_colon` returns: an index at or after `from` that holds a colon,
/// or the length, with no colon in between.
proof fn lemma_next_colon_props(s: Seq<char>, from: int)
    requires
        0 <= from <= s.len(),
    ensures
        from <= next_colon(s, from) <= s.len(),
        next_colon(s, from) < s.len() ==> s[next_colon(s, from)] == ':',
        forall|j: int| from <= j < next_colon(s, from) ==> s[j] != ':',
    decreases s.len() - from,
{
    if from < s.len() && s[from] != ':' {
        lemma_next_colon_props(s, from + 1);
    }
}

/// A colon at `to` after a stretch without colons is the next colon.
proof fn lemma_next_colon_at(s: Seq<char>, from: int, to: int)
    requires
        0 <= from <= to < s.len(),
        forall|j: int| from <= j < to ==> s[j] != ':',
        s[to] == ':',
    ensures
        next_colon(s, from) == to,
{
    lemma_next_colon_skip(s, from, to);
}

/// A valid `source_id` holds no colon.
proof fn lemma_source_id_has_no_colon(s: Seq<char>)
    requires
        valid_source_id(s),
    ensures
        forall|j: int| 0 <= j < s.len() ==> s[j] != ':',
{
    assert forall|j: int| 0 <= j < s.len() implies s[j] != ':' by {
        assert(is_source_id_char(s[j]));
    }
}

/// Parsing the text of a URN gives back its parts: for every valid
/// `source_id` and non-empty name, `parse(urn:secrets-rs:<source_id>:<name>)`
/// succeeds with exactly that `source_id` and name.
pub proof fn law_parse_of_text(source_id: Seq<char>, name: Seq<char>)
    requires
        valid_parts(source_id, name),
    ensures
        parse_urn(urn_text(source_id, name)) == Ok::<_, UrnParseErrorView>((source_id, name)),
{
    let t = urn_text(source_id, name);
    let k = source_id.len() as int;
    assert(t.len() == 16 + k + name.len());
    assert(forall|j: int| 0 <= j < 15 ==> t[j] == prefix_text()[j]);
    assert(forall|j: int| 0 <= j < k ==> t[15 + j] == source_id[j]);
    assert(t[15 + k] == ':');
    assert(forall|j: int| 0 <= j < name.len() ==> t[16 + k + j] == name[j]);
    lemma_next_colon_at(t, 0, 3);
    lemma_next_colon_at(t, 4, 14);
    lemma_source_id_has_no_colon(source_id);
    assert forall|j: int| 15 <= j < 15 + k implies t[j] != ':' by {
        assert(t[j] == source_id[j - 15]);
    }
    lemma_next_colon_at(t, 15, 15 + k);
    assert(colon1(t) == 3);
    assert(colon2(t) == 14);
    assert(colon3(t) == 15 + k);
    assert(t.subrange(0, 3) =~= scheme_text());
    assert(t.subrange(4, 14) =~= nid_text());
    assert(t.subrange(15, 15 + k) =~= source_id);
    assert(t.subrange(16 + k, t.len() as int) =~= name);
}

/// Parsing keeps everything but the case of the scheme and NID: when `s`
/// parses, its first 15 characters equal `urn:secrets-rs:` ignoring ASCII
/// case and the rest is exactly `<source_id>:<name>`, so the text of the
/// parsed URN is `s` with scheme and NID lowercased.
pub proof fn law_text_of_parse(s: Seq<char>)
    requires
        parse_urn(s) is Ok,
    ensures
        ({
            let (source_id, name) = parse_urn(s)->Ok_0;
            &&& valid_parts(source_id, name)
            &&& urn_text(source_id, name).len() == s.len()
            &&& eq_ignore_ascii_case(s.take(15), prefix_text())
            &&& s.skip(15) == source_id + seq![':'] + name
        }),
{
    let (source_id, name) = parse_urn(s)->Ok_0;
    let scheme = s.subrange(0, colon1(s));
    let nid = s.subrange(colon1(s) + 1, colon2(s));
    lemma_next_colon_props(s, 0);
    lemma_next_colon_props(s, colon1(s) + 1);
    assert(scheme.len() == 3);
    assert(colon1(s) == 3);
    assert(nid.len() == 10);
    assert(colon2(s) == 14);
    lemma_next_colon_props(s, colon2(s) + 1);
    assert(s[colon3(s)] == ':');
    assert(s[3] == ':');
    assert(s[14] == ':');
    assert forall|i: int| 0 <= i < 15 implies ascii_lower_code(#[trigger] s.take(15)[i])
        == ascii_lower_code(prefix_text()[i]) by {
        if i < 3 {
            assert(s.take(15)[i] == scheme[i]);
        } else if 4 <= i < 14 {
            assert(s.take(15)[i] == nid[i - 4]);
        }
    }
    assert(eq_ignore_ascii_case(s.take(15), prefix_text()));
    assert(valid_parts(source_id, name));
    assert(s.skip(15) =~= source_id + seq![':'] + name);
}


/// Characters equal up to ASCII case are both colons or both not.
proof fn lemma_colon_up_to_case(a: char, b: char)
    requires
        ascii_lower_code(a) == ascii_lower_code(b),
    ensures
        (a == ':') == (b == ':'),
{
}

/// Characters equal up to ASCII case may both stand in a `source_id`, or
/// neither may.
proof fn lemma_source_id_char_up_to_case(a: char, b: char)
    requires
        ascii_lower_code(a) == ascii_lower_code(b),
    ensures
        is_source_id_char(a) == is_source_id_char(b),
{
}

/// Changing ASCII case moves no colon.
proof fn lemma_next_colon_up_to_case(s: Seq<char>, t: Seq<char>, from: int)
    requires
        eq_ignore_ascii_case(s, t),
        0 <= from <= s.len(),
    ensures
        next_colon(s, from) == next_colon(t, from),
    decreases s.len() - from,
{
    if from < s.len() {
        assert(ascii_lower_code(s[from]) == ascii_lower_code(t[from]));
        lemma_colon_up_to_case(s[from], t[from]);
        lemma_next_colon_up_to_case(s, t, from + 1);
    }
}

/// Equality up to ASCII case holds of matching stretches, and carries over
/// from one sequence to another that equals it up to case.
proof fn lemma_case_stretch(s: Seq<char>, t: Seq<char>, lo: int, hi: int, target: Seq<char>)
    requires
        eq_ignore_ascii_case(s, t),
        0 <= lo <= hi <= s.len(),
        eq_ignore_ascii_case(s.subrange(lo, hi), target),
    ensures
        eq_ignore_ascii_case(t.subrange(lo, hi), target),
{
    assert forall|i: int| 0 <= i < hi - lo implies ascii_lower_code(#[trigger] t.subrange(lo, hi)[i])
        == ascii_lower_code(target[i]) by {
        assert(s.subrange(lo, hi)[i] == s[lo + i]);
        assert(t.subrange(lo, hi)[i] == t[lo + i]);
        assert(ascii_lower_code(s[lo + i]) == ascii_lower_code(t[lo + i]));
    }
}

/// Changing the ASCII case of letters in a URN that parses gives a URN that
/// parses too: to the same parts when the changes all lie in the scheme and
/// NID (the first 15 characters are `urn:secrets-rs:` up to case), and to
/// different parts when any lies in the `source_id` or name, which are kept
/// as written and never case-folded.
pub proof fn law_case_change(s: Seq<char>, t: Seq<char>)
    requires
        parse_urn(s) is Ok,
        eq_ignore_ascii_case(s, t),
    ensures
        parse_urn(t) is Ok,
        (parse_urn(t) == parse_urn(s)) == (t.skip(15) == s.skip(15)),
{
    law_text_of_parse(s);
    lemma_next_colon_up_to_case(s, t, 0);
    lemma_next_colon_props(s, 0);
    lemma_next_colon_up_to_case(s, t, colon1(s) + 1);
    lemma_next_colon_props(s, colon1(s) + 1);
    lemma_next_colon_up_to_case(s, t, colon2(s) + 1);
    lemma_next_colon_props(s, colon2(s) + 1);
    assert(colon1(t) == colon1(s));
    assert(colon2(t) == colon2(s));
    assert(colon3(t) == colon3(s));
    let c1 = colon1(s);
    let c2 = colon2(s);
    let c3 = colon3(s);
    assert(c1 == 3);
    assert(c2 == 14);
    lemma_case_stretch(s, t, 0, c1, scheme_text());
    lemma_case_stretch(s, t, c1 + 1, c2, nid_text());
    let sid_s = s.subrange(c2 + 1, c3);
    let sid_t = t.subrange(c2 + 1, c3);
    let name_s = s.subrange(c3 + 1, s.len() as int);
    let name_t = t.subrange(c3 + 1, t.len() as int);
    assert forall|i: int| 0 <= i < sid_t.len() implies is_source_id_char(#[trigger] sid_t[i]) by {
        assert(sid_s[i] == s[c2 + 1 + i]);
        assert(sid_t[i] == t[c2 + 1 + i]);
        assert(ascii_lower_code(s[c2 + 1 + i]) == ascii_lower_code(t[c2 + 1 + i]));
        assert(is_source_id_char(sid_s[i]));
        lemma_source_id_char_up_to_case(sid_s[i], sid_t[i]);
    }
    assert(parse_urn(t) == Ok::<_, UrnParseErrorView>((sid_t, name_t)));
    assert(s.skip(15) =~= sid_s + seq![':'] + name_s);
    assert(s[c3] == ':');
    assert(ascii_lower_code(s[c3]) == ascii_lower_code(t[c3]));
    lemma_colon_up_to_case(s[c3], t[c3]);
    assert(t.skip(15) =~= sid_t + seq![':'] + name_t);
    if t.skip(15) == s.skip(15) {
        assert(sid_t =~= t.skip(15).subrange(0, sid_t.len() as int));
        assert(sid_s =~= s.skip(15).subrange(0, sid_s.len() as int));
        assert(name_t =~= t.skip(15).subrange(sid_t.len() as int + 1, t.skip(15).len() as int));
        assert(name_s =~= s.skip(15).subrange(sid_s.len() as int + 1, s.skip(15).len() as int));
    }
}

} // verus!
