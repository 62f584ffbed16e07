//! Secrets: a URN, and once bound, the value it names.

use vstd::prelude::*;
use vstd::utf8::{decode_utf8, encode_utf8, valid_utf8};

use crate::error::{BindError, BindErrorView, SourceError, SourceErrorView, UnboundError, UrnParseError, UrnParseErrorView};
use crate::source::{RegisteredSource, SourceRegistry};
use crate::text::{decimal, decimal_string, is_decimal_digit, law_decimal_is_the_numeral, numeral_value};
use crate::urn::{parse_urn, urn_text, valid_parts, Urn};

verus! {

/// Implemented by types that can be stored inside a [`Secret`]: how raw bytes
/// from a source become a value, the label of the type in masked values, and
/// the size shown there.
pub trait SecretValue: Sized {
    /// The type label shown in masked values.
    spec fn type_label() -> Seq<char>;

    /// The byte strings that `from_bytes` turns into a value.
    spec fn accepts(bytes: Seq<u8>) -> bool;

    /// `value` is what `from_bytes` makes of `bytes`.
    spec fn decodes_to(bytes: Seq<u8>, value: Self) -> bool;

    /// The size that `masked_size` shows for this value.
    spec fn size_text(&self) -> Seq<char>;

    /// The description of why `from_bytes` refuses `bytes`.
    spec fn error_text(bytes: Seq<u8>) -> Seq<char>;

    /// Short label included in the masked value, e.g. `string`, `bytes`, `json`.
    fn type_tag() -> (res: &'static str)
        ensures
            res@ == Self::type_label(),
    ;

    /// Constructs a value from the raw bytes returned by a source; `urn` is
    /// the text of the secret's URN, for the error.
    fn from_bytes(bytes: Vec<u8>, urn: &str) -> (res: Result<Self, BindError>)
        ensures
            res is Ok <==> Self::accepts(bytes@),
            res matches Ok(v) ==> Self::decodes_to(bytes@, v),
            res matches Err(e) ==> e@ == (BindErrorView::TypeConversion {
                urn: urn@,
                detail: Self::error_text(bytes@),
            }),
    ;

    /// The size shown in the masked value, e.g. `12`.
    fn masked_size(&self) -> (res: String)
        ensures
            res@ == self.size_text(),
    ;
}

/// The text of the error that `String::from_utf8` gives for `bytes`, as its
/// `to_string` writes it (where the first invalid sequence starts, and how
/// long it is).
pub uninterp spec fn utf8_error_text(bytes: Seq<u8>) -> Seq<char>;

/// Decodes UTF-8 with `String::from_utf8`, or describes why the bytes are
/// not UTF-8.
///
/// Succeeds exactly on well-formed UTF-8 (`valid_utf8`: no overlong forms,
/// no surrogates, nothing above U+10FFFF), with the characters that
/// `decode_utf8` reads from the bytes; otherwise the error's text is
/// `utf8_error_text` of the bytes.
#[verifier::external_body]
fn utf8_to_string(bytes: Vec<u8>) -> (res: Result<String, String>)
    ensures
        match res {
            Ok(s) => valid_utf8(bytes@) && s@ == decode_utf8(bytes@),
            Err(d) => !valid_utf8(bytes@) && d@ == utf8_error_text(bytes@),
        },
{
    match String::from_utf8(bytes) {
        Ok(s) => Ok(s),
        Err(e) => Err(e.to_string()),
    }
}

impl SecretValue for String {
    open spec fn type_label() -> Seq<char> {
        "string"@
    }

    open spec fn accepts(bytes: Seq<u8>) -> bool {
        valid_utf8(bytes)
    }

    open spec fn decodes_to(bytes: Seq<u8>, value: Self) -> bool {
        value@ == decode_utf8(bytes)
    }

    /// The number of characters.
    open spec fn size_text(&self) -> Seq<char> {
        decimal(self@.len())
    }

    open spec fn error_text(bytes: Seq<u8>) -> Seq<char> {
        utf8_error_text(bytes)
    }

    fn type_tag() -> (res: &'static str) {
        "string"
    }

    fn from_bytes(bytes: Vec<u8>, urn: &str) -> (res: Result<Self, BindError>) {
        match utf8_to_string(bytes) {
            Ok(s) => Ok(s),
            Err(detail) => Err(BindError::TypeConversion { urn: urn.to_owned(), detail }),
        }
    }

    fn masked_size(&self) -> (res: String) {
        decimal_string(self.as_str().unicode_len())
    }
}

impl SecretValue for Vec<u8> {
    open spec fn type_label() -> Seq<char> {
        "bytes"@
    }

    open spec fn accepts(bytes: Seq<u8>) -> bool {
        true
    }

    open spec fn decodes_to(bytes: Seq<u8>, value: Self) -> bool {
        value@ == bytes
    }

    /// The number of bytes.
    open spec fn size_text(&self) -> Seq<char> {
        decimal(self@.len())
    }

    /// Never used: every byte string is accepted.
    open spec fn error_text(bytes: Seq<u8>) -> Seq<char> {
        Seq::empty()
    }

    fn type_tag() -> (res: &'static str) {
        "bytes"
    }

    fn from_bytes(bytes: Vec<u8>, urn: &str) -> (res: Result<Self, BindError>) {
        Ok(bytes)
    }

    fn masked_size(&self) -> (res: String) {
        decimal_string(self.len())
    }
}

/// A JSON value, as `serde_json` holds it.
#[verifier::external_type_specification]
#[verifier::external_body]
pub struct ExJsonValue(serde_json::Value);

/// The byte strings that `serde_json::from_slice` parses into a
/// `serde_json::Value`.
pub uninterp spec fn json_accepts(bytes: Seq<u8>) -> bool;

/// The value that `serde_json::from_slice` parses from `bytes`, when it
/// accepts them.
pub uninterp spec fn json_value_of(bytes: Seq<u8>) -> serde_json::Value;

/// The text of the error that `serde_json::from_slice` gives for `bytes`, as
/// its `to_string` writes it (the reason, with line and column).
pub uninterp spec fn json_error_text(bytes: Seq<u8>) -> Seq<char>;

/// Parses JSON with `serde_json::from_slice`, or describes why it failed.
///
/// Whether it succeeds, and the value it gives, depend on the bytes alone:
/// they are `json_accepts` and `json_value_of` of the bytes, and the text of
/// the error is `json_error_text` of them.
#[verifier::external_body]
fn json_from_slice(bytes: &Vec<u8>) -> (res: Result<serde_json::Value, String>)
    ensures
        res is Ok <==> json_accepts(bytes@),
        res matches Ok(v) ==> v == json_value_of(bytes@),
        res matches Err(d) ==> d@ == json_error_text(bytes@),
{
    match serde_json::from_slice::<serde_json::Value>(bytes) {
        Ok(v) => Ok(v),
        Err(e) => Err(e.to_string()),
    }
}

/// The length in bytes of the compact JSON text of a value, as `serde_json`
/// writes it with `to_string`.
pub uninterp spec fn json_text_length(value: serde_json::Value) -> nat;

/// The length in bytes of the compact JSON text of `value`, written by
/// `serde_json`'s `to_string`; it depends on the value alone and is
/// `json_text_length` of it.
#[verifier::external_body]
fn json_text_len(value: &serde_json::Value) -> (res: usize)
    ensures
        res == json_text_length(*value),
{
    value.to_string().len()
}

impl SecretValue for serde_json::Value {
    open spec fn type_label() -> Seq<char> {
        "json"@
    }

    open spec fn accepts(bytes: Seq<u8>) -> bool {
        json_accepts(bytes)
    }

    open spec fn decodes_to(bytes: Seq<u8>, value: Self) -> bool {
        value == json_value_of(bytes)
    }

    /// The length of the compact JSON text.
    open spec fn size_text(&self) -> Seq<char> {
        decimal(json_text_length(*self))
    }

    open spec fn error_text(bytes: Seq<u8>) -> Seq<char> {
        json_error_text(bytes)
    }

    fn type_tag() -> (res: &'static str) {
        "json"
    }

    fn from_bytes(bytes: Vec<u8>, urn: &str) -> (res: Result<Self, BindError>) {
        match json_from_slice(&bytes) {
            Ok(v) => Ok(v),
            Err(detail) => Err(BindError::TypeConversion { urn: urn.to_owned(), detail }),
        }
    }

    fn masked_size(&self) -> (res: String) {
        decimal_string(json_text_len(self))
    }
}

/// The masked value of a secret whose URN text is `urn`: unbound when `shown`
/// is `None`, else bound with the type label and size in `shown`.
pub open spec fn masked_text(urn: Seq<char>, shown: Option<(Seq<char>, Seq<char>)>) -> Seq<char> {
    match shown {
        None => urn + " [UNBOUND]"@,
        Some((type_label, size)) => urn + " ["@ + type_label + ":"@ + size + "]"@,
    }
}

/// The text of the debug form of a secret with the given masked value.
pub open spec fn debug_text(masked: Seq<char>) -> Seq<char> {
    "Secret("@ + masked + ")"@
}

/// A secret value identified by a URN.
///
/// Before it is bound the secret holds no value, and reading its value is an
/// error. Its masked value, which names the URN, the type and the size but
/// never the value, is what it shows by default.
pub struct Secret<T: SecretValue> {
    urn: Urn,
    value: Option<T>,
}

impl<T: SecretValue> Secret<T> {
    /// Every secret's URN has a valid `source_id` and a non-empty name.
    #[verifier::type_invariant]
    spec fn urn_is_valid(&self) -> bool {
        valid_parts(self.urn.source_id@, self.urn.name@)
    }

    /// The `source_id` and name of the URN.
    pub closed spec fn urn_parts(&self) -> (Seq<char>, Seq<char>) {
        self.urn@
    }

    /// The value, once bound.
    pub closed spec fn bound_value(&self) -> Option<T> {
        self.value
    }

    /// The text of the URN.
    pub open spec fn urn_text_of(&self) -> Seq<char> {
        urn_text(self.urn_parts().0, self.urn_parts().1)
    }

    /// What the masked value shows of the value: nothing while unbound, else
    /// the type label and the size.
    pub open spec fn shown(&self) -> Option<(Seq<char>, Seq<char>)> {
        match self.bound_value() {
            None => None,
            Some(v) => Some((T::type_label(), v.size_text())),
        }
    }

    /// The masked value.
    pub open spec fn masked_view(&self) -> Seq<char> {
        masked_text(self.urn_text_of(), self.shown())
    }

    /// Creates an unbound secret from a URN string.
    pub fn new(urn_str: &str) -> (res: Result<Self, UrnParseError>)
        ensures
            match res {
                Ok(s) => parse_urn(urn_str@) == Ok::<_, UrnParseErrorView>(s.urn_parts()) && s.bound_value() is None,
                Err(e) => parse_urn(urn_str@) == Err::<(Seq<char>, Seq<char>), _>(e@),
            },
    {
        match Urn::parse(urn_str) {
            Ok(urn) => {
                proof {
                    crate::urn::law_text_of_parse(urn_str@);
                }
                Ok(Secret { urn, value: None })
            },
            Err(e) => Err(e),
        }
    }

    /// The URN.
    pub fn urn(&self) -> (res: &Urn)
        ensures
            res@ == self.urn_parts(),
            valid_parts(res@.0, res@.1),
    {
        proof {
            use_type_invariant(self);
        }
        &self.urn
    }

    /// The value, or an [`UnboundError`] naming the URN if not yet bound.
    pub fn value(&self) -> (res: Result<&T, UnboundError>)
        ensures
            match self.bound_value() {
                Some(v) => res matches Ok(r) && *r == v,
                None => res matches Err(e) && e.urn@ == self.urn_text_of(),
            },
    {
        match &self.value {
            Some(v) => Ok(v),
            None => Err(UnboundError { urn: self.urn.to_string() }),
        }
    }

    /// The masked value: `<urn> [UNBOUND]` before binding, `<urn> [<type>:<size>]`
    /// after. It is safe to log.
    pub fn masked_value(&self) -> (res: String)
        ensures
            res@ == self.masked_view(),
    {
        let mut out = self.urn.to_string();
        match &self.value {
            None => {
                out.append(" [UNBOUND]");
                out
            },
            Some(v) => {
                let size = v.masked_size();
                out.append(" [");
                out.append(T::type_tag());
                out.append(":");
                out.append(size.as_str());
                out.append("]");
                out
            },
        }
    }

    /// What the secret shows when displayed: its masked value.
    pub fn to_string(&self) -> (res: String)
        ensures
            res@ == self.masked_view(),
    {
        self.masked_value()
    }

    /// What the secret shows in debug output: `Secret(<masked value>)`.
    pub fn debug_string(&self) -> (res: String)
        ensures
            res@ == debug_text(self.masked_view()),
    {
        let masked = self.masked_value();
        let mut out = String::from_str("Secret(");
        out.append(masked.as_str());
        out.append(")");
        out
    }

    /// The first step of binding: the source registered under the URN's
    /// `source_id` and the name to ask it for, or `SourceNotFound`.
    pub fn fetch_request<'r>(&self, registry: &'r SourceRegistry) -> (res: Result<(&'r RegisteredSource, String), BindError>)
        ensures
            res is Ok <==> registry.sources().contains_key(self.urn_parts().0),
            res matches Ok(p) ==> *p.0 == registry.sources()[self.urn_parts().0] && p.1@ == self.urn_parts().1,
            res matches Err(e) ==> e@ == (BindErrorView::SourceNotFound { source_id: self.urn_parts().0 }),
    {
        match registry.get(self.urn.source_id.as_str()) {
            Some(source) => Ok((source, self.urn.name.clone())),
            None => Err(BindError::SourceNotFound { source_id: self.urn.source_id.clone() }),
        }
    }

    /// The second step of binding: given what the source answered, stores the
    /// value or reports why it cannot. A missing secret becomes
    /// `NameNotFound`, another source failure `Source`, bytes that the type
    /// does not accept `TypeConversion`; on any error the secret keeps the
    /// value it had.
    pub fn complete_bind(&mut self, fetched: Result<Vec<u8>, SourceError>) -> (res: Result<(), BindError>)
        ensures
            bind_keeps(*old(self), *final(self), res),
            final(self).urn_parts() == old(self).urn_parts(),
            res is Err ==> final(self).bound_value() == old(self).bound_value(),
            match fetched {
                Ok(bytes) => {
                    &&& res is Ok <==> T::accepts(bytes@)
                    &&& res is Ok ==> (final(self).bound_value() matches Some(v) && T::decodes_to(bytes@, v))
                    &&& res matches Err(e) ==> e@ == (BindErrorView::TypeConversion {
                        urn: old(self).urn_text_of(),
                        detail: T::error_text(bytes@),
                    })
                },
                Err(SourceError::NotFound { name }) => res matches Err(e) && e@
                    == (BindErrorView::NameNotFound { source_id: old(self).urn_parts().0, name: name@ }),
                Err(other) => res matches Err(e) && e@ == (BindErrorView::Source {
                    urn: old(self).urn_text_of(),
                    source: other@,
                }),
            },
    {
        proof {
            use_type_invariant(&*self);
        }
        let urn_str = self.urn.to_string();
        match fetched {
            Err(SourceError::NotFound { name }) => Err(
                BindError::NameNotFound { source_id: self.urn.source_id.clone(), name },
            ),
            Err(other) => Err(BindError::Source { urn: urn_str, source: other }),
            Ok(bytes) => match T::from_bytes(bytes, urn_str.as_str()) {
                Ok(v) => {
                    self.value = Some(v);
                    Ok(())
                },
                Err(e) => Err(e),
            },
        }
    }
}

/// What a string secret reads back of a string written to a source: the
/// UTF-8 bytes of any string (what the environment source answers for a
/// variable) are accepted by `String::from_bytes` and decode to that string.
pub proof fn law_string_bytes_round_trip(text: Seq<char>)
    ensures
        <String as SecretValue>::accepts(encode_utf8(text)),
        decode_utf8(encode_utf8(text)) == text,
{
    vstd::utf8::encode_utf8_valid_utf8(text);
    vstd::utf8::encode_utf8_decode_utf8(text);
}

/// A string secret holds exactly the text of the bytes it was bound from:
/// for any text, a value that its UTF-8 bytes decode to is that text, every
/// character of it and nothing more.
pub proof fn law_string_value_is_the_text(text: Seq<char>, value: String)
    requires
        <String as SecretValue>::decodes_to(encode_utf8(text), value),
    ensures
        value@ == text,
        value@.len() == text.len(),
{
    vstd::utf8::encode_utf8_decode_utf8(text);
}

/// No byte of an accepted input is lost in a string secret: the UTF-8
/// encoding of the value it decodes to is the input again.
pub proof fn law_string_value_encodes_to_its_bytes(bytes: Seq<u8>, value: String)
    requires
        <String as SecretValue>::accepts(bytes),
        <String as SecretValue>::decodes_to(bytes, value),
    ensures
        encode_utf8(value@) == bytes,
{
    vstd::utf8::decode_utf8_encode_utf8(bytes);
}

/// A bytes secret holds exactly the bytes it was bound from, and accepts
/// every byte string.
pub proof fn law_bytes_value_is_the_input(bytes: Seq<u8>, value: Vec<u8>)
    requires
        <Vec<u8> as SecretValue>::decodes_to(bytes, value),
    ensures
        <Vec<u8> as SecretValue>::accepts(bytes),
        value@.len() == bytes.len(),
        forall|i: int| 0 <= i < bytes.len() ==> value@[i] == bytes[i],
{
}

/// The size in the masked value of a string or bytes secret is the decimal
/// numeral of its length: digits that read back in base 10 as the number of
/// characters (of a `String`) or bytes (of a `Vec<u8>`), with no leading
/// zero.
pub proof fn law_size_text_is_the_length(text: String, bytes: Vec<u8>)
    ensures
        numeral_value(text.size_text()) == text@.len(),
        numeral_value(bytes.size_text()) == bytes@.len(),
        text.size_text().len() > 1 ==> text.size_text()[0] != '0',
        bytes.size_text().len() > 1 ==> bytes.size_text()[0] != '0',
        forall|i: int| 0 <= i < text.size_text().len() ==> is_decimal_digit(#[trigger] text.size_text()[i]),
        forall|i: int| 0 <= i < bytes.size_text().len() ==> is_decimal_digit(#[trigger] bytes.size_text()[i]),
{
    law_decimal_is_the_numeral(text@.len());
    law_decimal_is_the_numeral(bytes@.len());
}

/// The masked value shows nothing of a secret but its URN, its type and the
/// size of its value: two secrets of one type with the same URN, both unbound
/// or bound to values of the same size, have the same masked value (and so
/// the same display and debug forms). The size is the number of characters of
/// a `String`, of bytes of a `Vec<u8>`, and of bytes of the compact JSON text
/// of a `serde_json::Value`.
pub proof fn law_masked_value_shows_only_urn_type_and_size<T: SecretValue>(first: Secret<T>, second: Secret<T>)
    requires
        first.urn_parts() == second.urn_parts(),
        first.bound_value() is None <==> second.bound_value() is None,
        first.bound_value() matches Some(v1) ==> (second.bound_value() matches Some(v2) && v1.size_text()
            == v2.size_text()),
    ensures
        first.masked_view() == second.masked_view(),
{
}

/// In particular, two strings of the same length (in characters) give the
/// same masked value under one URN.
pub proof fn law_masked_string_hides_content(first: Secret<String>, second: Secret<String>)
    requires
        first.urn_parts() == second.urn_parts(),
        first.bound_value() matches Some(v1) && second.bound_value() matches Some(v2) && v1@.len()
            == v2@.len(),
    ensures
        first.masked_view() == second.masked_view(),
{
}

/// What one bind leaves of a secret: the URN as it was; after a failure the
/// value as it was; after a success some value. Both steps of binding keep
/// it: `fetch_request` changes nothing, `complete_bind` ensures it.
pub open spec fn bind_keeps<T: SecretValue>(before: Secret<T>, after: Secret<T>, res: Result<(), BindError>) -> bool {
    &&& after.urn_parts() == before.urn_parts()
    &&& res is Err ==> after.bound_value() == before.bound_value()
    &&& res is Ok ==> after.bound_value() is Some
}

/// The value a secret holds after the binds whose results are `results`,
/// starting from `states[0]` and passing through `states[1..]`: the value
/// stored by the last bind that succeeded, or the starting value when none did.
pub open spec fn value_after_binds<T: SecretValue>(
    states: Seq<Secret<T>>,
    results: Seq<Result<(), BindError>>,
) -> Option<T>
    decreases results.len(),
{
    if results.len() == 0 {
        states[0].bound_value()
    } else if results.last() is Ok {
        states[results.len() as int].bound_value()
    } else {
        value_after_binds(states, results.drop_last())
    }
}

/// Over any sequence of binds, each succeeding or failing, a secret keeps its
/// URN, and holds the value stored by the last bind that succeeded, or the
/// value it started with (none, for a new secret) when none did.
pub proof fn law_binds_keep_urn_and_last_value<T: SecretValue>(
    states: Seq<Secret<T>>,
    results: Seq<Result<(), BindError>>,
)
    requires
        states.len() == results.len() + 1,
        forall|i: int| 0 <= i < results.len() ==> bind_keeps(#[trigger] states[i], states[i + 1], results[i]),
    ensures
        states.last().urn_parts() == states[0].urn_parts(),
        states.last().bound_value() == value_after_binds(states, results),
        (forall|i: int| 0 <= i < results.len() ==> (#[trigger] results[i]) is Err) ==> states.last().bound_value()
            == states[0].bound_value(),
    decreases results.len(),
{
    if results.len() > 0 {
        let n = results.len() as int;
        let shorter = states.drop_last();
        assert forall|i: int| 0 <= i < n - 1 implies bind_keeps(
            #[trigger] shorter[i],
            shorter[i + 1],
            results.drop_last()[i],
        ) by {
            assert(bind_keeps(states[i], states[i + 1], results[i]));
        }
        law_binds_keep_urn_and_last_value(shorter, results.drop_last());
        assert(bind_keeps(states[n - 1], states[n], results[n - 1]));
        assert(value_after_binds(shorter, results.drop_last()) == value_after_binds(states, results.drop_last())) by {
            lemma_value_after_binds_prefix(shorter, states, results.drop_last());
        }
        if forall|i: int| 0 <= i < results.len() ==> (#[trigger] results[i]) is Err {
            assert forall|i: int| 0 <= i < n - 1 implies (#[trigger] results.drop_last()[i]) is Err by {
                assert(results[i] is Err);
            }
            assert(results[n - 1] is Err);
        }
    }
}

/// `value_after_binds` reads only the states up to the last result's.
proof fn lemma_value_after_binds_prefix<T: SecretValue>(
    states: Seq<Secret<T>>,
    other: Seq<Secret<T>>,
    results: Seq<Result<(), BindError>>,
)
    requires
        states.len() >= results.len() + 1,
        other.len() >= results.len() + 1,
        forall|i: int| 0 <= i <= results.len() ==> states[i] == other[i],
    ensures
        value_after_binds(states, results) == value_after_binds(other, results),
    decreases results.len(),
{
    if results.len() > 0 {
        lemma_value_after_binds_prefix(states, other, results.drop_last());
    }
}

} // verus!
