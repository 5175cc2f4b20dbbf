//! Field names for journal entries.
//!
//! The journal restricts the keys of its key/value pairs: a name is 1 to 64
//! bytes, starts with an uppercase ASCII letter, and continues with
//! uppercase ASCII letters, digits, or underscores.  [`Field`] borrows a
//! string that has been checked against these rules; [`OwnedField`] owns a
//! string that was coerced into them.

use vstd::prelude::*;
use vstd::string::StrSliceExecFns;
use vstd::string::StringExecFns;
use vstd::string::StringSliceAdditionalSpecFns;
use vstd::utf8::encode_utf8;
use vstd::utf8::encode_utf8_decode_utf8;
use vstd::utf8::is_ascii_chars;
use vstd::utf8::is_ascii_chars_encode_utf8;

verus! {

/// Longest permitted field name, in bytes.
pub const FIELD_LEN_MAX: usize = 64;

/// True for `A`..`Z`.
pub open spec fn is_upper_char(c: char) -> bool {
    'A' <= c && c <= 'Z'
}

/// True for `a`..`z`.
pub open spec fn is_lower_char(c: char) -> bool {
    'a' <= c && c <= 'z'
}

/// True for `0`..`9`.
pub open spec fn is_digit_char(c: char) -> bool {
    '0' <= c && c <= '9'
}

/// True for an ASCII letter of either case.
pub open spec fn is_letter_char(c: char) -> bool {
    is_upper_char(c) || is_lower_char(c)
}

/// True for the characters allowed after the first one: `A`..`Z`, `0`..`9`, `_`.
pub open spec fn is_field_char(c: char) -> bool {
    is_upper_char(c) || is_digit_char(c) || c == '_'
}

/// The naming rule for journal fields: 1 to 64 characters, the first an
/// uppercase ASCII letter, the rest uppercase letters, digits or underscores.
pub open spec fn valid_field_chars(s: Seq<char>) -> bool {
    &&& 1 <= s.len() <= 64
    &&& is_upper_char(s[0])
    &&& forall|i: int| 1 <= i < s.len() ==> is_field_char(#[trigger] s[i])
}

/// How sanitization repairs one character: a lowercase letter is raised to
/// uppercase, an uppercase letter, digit or underscore is kept, and
/// everything else becomes an underscore.
pub open spec fn map_char(c: char) -> char {
    if is_lower_char(c) {
        ((c as u32) - 32) as char
    } else if is_upper_char(c) || is_digit_char(c) || c == '_' {
        c
    } else {
        '_'
    }
}

/// A sequence satisfying the field naming rule holds ASCII characters only.
pub proof fn lemma_valid_field_is_ascii(s: Seq<char>)
    requires
        valid_field_chars(s),
    ensures
        is_ascii_chars(s),
{
    assert forall|i| 0 <= i < s.len() implies '\0' <= #[trigger] s[i] <= '\u{7f}' by {
        if i >= 1 {
            assert(is_field_char(s[i]));
        }
    }
}

/// The repaired character is always acceptable beyond the first position,
/// and repairs a letter into an uppercase letter.
proof fn lemma_map_char(c: char)
    ensures
        is_field_char(map_char(c)),
        is_letter_char(c) ==> is_upper_char(map_char(c)),
{
}

/// Checks a string against the field naming rule.
pub fn is_valid_field(field: &str) -> (r: bool)
    ensures
        r == valid_field_chars(field@),
{
    // The 64-byte limit is checked on bytes, as the journal counts them; a
    // name within the rule is ASCII, so its byte and character counts agree.
    if field.len() > FIELD_LEN_MAX {
        proof {
            if valid_field_chars(field@) {
                lemma_valid_field_is_ascii(field@);
                is_ascii_chars_encode_utf8(field@);
            }
        }
        return false;
    }
    let n = field.unicode_len();
    if n == 0 {
        return false;
    }
    let first = field.get_char(0);
    if !('A' <= first && first <= 'Z') {
        return false;
    }
    let mut i: usize = 1;
    while i < n
        invariant
            1 <= i <= n,
            n == field@.len(),
            forall|j: int| 1 <= j < i ==> is_field_char(#[trigger] field@[j]),
        decreases n - i,
    {
        let c = field.get_char(i);
        if !(('A' <= c && c <= 'Z') || ('0' <= c && c <= '9') || c == '_') {
            return false;
        }
        i += 1;
    }
    proof {
        assert forall|j| 0 <= j < field@.len() implies '\0' <= #[trigger] field@[j] <= '\u{7f}' by {
            if j == 0 {
                assert(is_upper_char(field@[0]));
            } else {
                assert(is_field_char(field@[j]));
            }
        }
        assert(is_ascii_chars(field@));
        is_ascii_chars_encode_utf8(field@);
    }
    true
}

/// Applies [`map_char`] to one character.
fn map_field_char(c: char) -> (r: char)
    ensures
        r == map_char(c),
{
    if 'a' <= c && c <= 'z' {
        let b = c as u8;
        (b - 32) as char
    } else if ('A' <= c && c <= 'Z') || ('0' <= c && c <= '9') || c == '_' {
        c
    } else {
        '_'
    }
}

/// Relies on `String::push`: appends the character to the end of the string.
#[verifier::external_body]
fn push_char(s: &mut String, c: char)
    ensures
        final(s)@ == old(s)@.push(c),
{
    s.push(c);
}

/// String equality, decided on the underlying bytes.
fn str_eq(a: &str, b: &str) -> (r: bool)
    ensures
        r == (a@ == b@),
{
    let ab = a.as_bytes();
    let bb = b.as_bytes();
    if ab.len() != bb.len() {
        proof {
            if a@ == b@ {
                assert(encode_utf8(a@) == encode_utf8(b@));
            }
        }
        return false;
    }
    let n = ab.len();
    let mut i: usize = 0;
    while i < n
        invariant
            0 <= i <= n,
            n == ab@.len() == bb@.len(),
            ab@ == a.spec_bytes(),
            bb@ == b.spec_bytes(),
            forall|j: int| 0 <= j < i ==> ab@[j] == bb@[j],
        decreases n - i,
    {
        if ab[i] != bb[i] {
            proof {
                if a@ == b@ {
                    assert(encode_utf8(a@) == encode_utf8(b@));
                }
            }
            return false;
        }
        i += 1;
    }
    proof {
        assert(a.spec_bytes() =~= b.spec_bytes());
        encode_utf8_decode_utf8(a@);
        encode_utf8_decode_utf8(b@);
    }
    true
}

/// A borrowed, already validated field name.
///
/// The journal places specific requirements on the keys of its key/value
/// pairs (they need not be unique).  [`Field::validate`] only constructs a
/// `Field` when the rule holds; [`Field::unchecked`] trusts its caller and
/// exists for protocol-reserved names known ahead of time.
#[derive(Clone, Copy, Debug)]
pub struct Field<'a> {
    inner: &'a str,
}

impl<'a> View for Field<'a> {
    type V = Seq<char>;

    closed spec fn view(&self) -> Seq<char> {
        self.inner@
    }
}

impl<'a> Field<'a> {
    /// Checks the string against the naming rule and wraps it on success.
    pub fn validate(inner: &'a str) -> (r: Option<Self>)
        ensures
            match r {
                Some(f) => valid_field_chars(inner@) && f@ == inner@,
                None => !valid_field_chars(inner@),
            },
    {
        if is_valid_field(inner) {
            Some(Self { inner })
        } else {
            None
        }
    }

    /// Wraps a string without checking it.
    ///
    /// Meant for protocol-reserved names known to satisfy the rule; every
    /// such use is expected to be re-validated by a test through
    /// [`Field::validate_unchecked`].
    pub fn unchecked(inner: &'a str) -> (r: Self)
        ensures
            r@ == inner@,
    {
        Self { inner }
    }

    /// Re-validates a field built with [`Field::unchecked`].
    pub fn validate_unchecked(&self) -> (r: bool)
        ensures
            r == valid_field_chars(self@),
    {
        is_valid_field(self.inner)
    }

    /// Bytes this name occupies when serialized.
    pub fn required_capacity(&self) -> (r: usize)
        ensures
            r == encode_utf8(self@).len(),
            valid_field_chars(self@) ==> r == self@.len(),
    {
        proof {
            if valid_field_chars(self@) {
                lemma_valid_field_is_ascii(self@);
                is_ascii_chars_encode_utf8(self@);
            }
        }
        self.inner.as_bytes().len()
    }

    /// The underlying name.
    pub fn as_str(&self) -> (r: &'a str)
        ensures
            r@ == self@,
    {
        self.inner
    }
}

impl<'a> PartialEq for Field<'a> {
    fn eq(&self, other: &Self) -> (r: bool) {
        str_eq(self.inner, other.inner)
    }
}

impl<'a> vstd::std_specs::cmp::PartialEqSpecImpl for Field<'a> {
    open spec fn obeys_eq_spec() -> bool {
        true
    }

    open spec fn eq_spec(&self, other: &Self) -> bool {
        self@ == other@
    }
}

/// The input with its leading run of non-letter characters removed.
pub open spec fn skip_non_letters(s: Seq<char>) -> Seq<char>
    decreases s.len(),
{
    if s.len() == 0 {
        s
    } else if is_letter_char(s[0]) {
        s
    } else {
        skip_non_letters(s.drop_first())
    }
}

/// What sanitization produces: the leading non-letters dropped, every
/// remaining character repaired by [`map_char`], and the result cut to 64
/// characters.
pub open spec fn sanitized_chars(s: Seq<char>) -> Seq<char> {
    let m = skip_non_letters(s).map_values(|c: char| map_char(c));
    if m.len() <= 64 {
        m
    } else {
        m.take(64)
    }
}

/// What prefixed sanitization produces: the prefix kept whole, the input
/// repaired character by character and cut so the whole stays within 64
/// characters.
pub open spec fn prefixed_chars(s: Seq<char>, p: Seq<char>) -> Seq<char>
    recommends
        p.len() <= 64,
{
    let room = 64 - p.len();
    let m = s.map_values(|c: char| map_char(c));
    p + (if m.len() <= room {
        m
    } else {
        m.take(room)
    })
}

/// Shape of [`skip_non_letters`]: nothing is dropped beyond the leading
/// run, the result is empty exactly when the input has no letter, and a
/// non-empty result starts with a letter.
pub proof fn lemma_skip_non_letters(s: Seq<char>)
    ensures
        skip_non_letters(s).len() <= s.len(),
        skip_non_letters(s).len() == 0 <==> (forall|i: int|
            0 <= i < s.len() ==> !is_letter_char(#[trigger] s[i])),
        skip_non_letters(s).len() > 0 ==> is_letter_char(skip_non_letters(s)[0]),
    decreases s.len(),
{
    if s.len() == 0 {
    } else if is_letter_char(s[0]) {
    } else {
        let t = s.drop_first();
        lemma_skip_non_letters(t);
        if forall|i: int| 0 <= i < s.len() ==> !is_letter_char(#[trigger] s[i]) {
            assert forall|k: int| 0 <= k < t.len() implies !is_letter_char(#[trigger] t[k]) by {
                assert(t[k] == s[k + 1]);
            }
        }
        if forall|k: int| 0 <= k < t.len() ==> !is_letter_char(#[trigger] t[k]) {
            assert forall|i: int| 0 <= i < s.len() implies !is_letter_char(#[trigger] s[i]) by {
                if i >= 1 {
                    assert(s[i] == t[i - 1]);
                }
            }
        }
    }
}

/// When every character before `i` is a non-letter and `i` is the end or a
/// letter, skipping the leading run is the same as skipping `i` characters.
proof fn lemma_skip_non_letters_at(s: Seq<char>, i: int)
    requires
        0 <= i <= s.len(),
        forall|j: int| 0 <= j < i ==> !is_letter_char(#[trigger] s[j]),
        i == s.len() || is_letter_char(s[i]),
    ensures
        skip_non_letters(s) == s.skip(i),
    decreases i,
{
    if i == 0 {
        assert(s.skip(0) =~= s);
        if s.len() > 0 && !is_letter_char(s[0]) {
            // i == 0 == s.len() is excluded, so s[0] is a letter
        }
    } else {
        let t = s.drop_first();
        assert(forall|j: int| 0 <= j < i - 1 ==> !is_letter_char(#[trigger] t[j]));
        lemma_skip_non_letters_at(t, i - 1);
        assert(t.skip(i - 1) =~= s.skip(i));
    }
}

/// An owned, already sanitized field name.
///
/// Like [`Field`], its value conforms to the journal's naming rule; it is
/// built by coercing an arbitrary string, for keys not known ahead of time.
#[derive(Clone, Debug)]
pub struct OwnedField {
    inner: String,
}

impl View for OwnedField {
    type V = Seq<char>;

    closed spec fn view(&self) -> Seq<char> {
        self.inner@
    }
}

impl PartialEq for OwnedField {
    fn eq(&self, other: &Self) -> (r: bool) {
        str_eq(self.inner.as_str(), other.inner.as_str())
    }
}

impl vstd::std_specs::cmp::PartialEqSpecImpl for OwnedField {
    open spec fn obeys_eq_spec() -> bool {
        true
    }

    open spec fn eq_spec(&self, other: &Self) -> bool {
        self@ == other@
    }
}

impl OwnedField {
    /// Coerces an arbitrary string into a valid field name: the leading run
    /// of non-letter characters is dropped, each remaining character is
    /// repaired by [`map_char`], and the result is cut to 64 characters.
    /// Absent exactly when nothing remains, that is when the input has no
    /// ASCII letter.
    pub fn sanitize(field: &str) -> (r: Option<Self>)
        ensures
            match r {
                Some(f) => {
                    &&& f@ == sanitized_chars(field@)
                    &&& sanitized_chars(field@).len() > 0
                    &&& valid_field_chars(f@)
                },
                None => sanitized_chars(field@).len() == 0,
            },
    {
        let n = field.unicode_len();
        let mut i: usize = 0;
        while i < n && !is_letter_exec(field.get_char(i))
            invariant
                0 <= i <= n,
                n == field@.len(),
                forall|j: int| 0 <= j < i ==> !is_letter_char(#[trigger] field@[j]),
            decreases n - i,
        {
            i += 1;
        }
        proof {
            lemma_skip_non_letters_at(field@, i as int);
        }
        let ghost start = i as int;
        let ghost skipped = field@.skip(start);
        let mut out = String::new();
        let mut cnt: usize = 0;
        while i < n && cnt < FIELD_LEN_MAX
            invariant
                0 <= start <= n,
                i as int == start + cnt,
                start + cnt <= n,
                cnt <= 64,
                n == field@.len(),
                skipped == field@.skip(start),
                out@ == skipped.take(cnt as int).map_values(|c: char| map_char(c)),
            decreases n - i,
        {
            let c = map_field_char(field.get_char(i));
            push_char(&mut out, c);
            proof {
                assert(skipped.take(cnt + 1) =~= skipped.take(cnt as int).push(field@[start + cnt]));
                assert(skipped.take(cnt + 1).map_values(|c: char| map_char(c)) =~= skipped.take(
                    cnt as int,
                ).map_values(|c: char| map_char(c)).push(map_char(field@[start + cnt])));
            }
            i += 1;
            cnt += 1;
        }
        proof {
            let m = skipped.map_values(|c: char| map_char(c));
            if cnt == 64 {
                assert(out@ =~= m.take(64));
            } else {
                assert(skipped.take(cnt as int) =~= skipped);
            }
        }
        if cnt == 0 {
            None
        } else {
            proof {
                lemma_skip_non_letters(field@);
                assert forall|j: int| 0 <= j < out@.len() implies is_field_char(#[trigger] out@[j]) by {
                    lemma_map_char(skipped.take(cnt as int)[j]);
                }
                lemma_map_char(skipped[0]);
            }
            Some(Self { inner: out })
        }
    }

    /// Coerces an arbitrary string into a valid field name placed after a
    /// trusted prefix.  The prefix is never cut; the repaired input is cut
    /// so that the whole result stays within 64 characters.
    pub fn sanitize_with_prefix(field: &str, prefix: Field<'_>) -> (r: Self)
        requires
            valid_field_chars(prefix@),
        ensures
            r@ == prefixed_chars(field@, prefix@),
            valid_field_chars(r@),
            r@.len() <= 64,
            r@.subrange(0, prefix@.len() as int) == prefix@,
    {
        proof {
            lemma_valid_field_is_ascii(prefix@);
            is_ascii_chars_encode_utf8(prefix@);
        }
        let plen = prefix.as_str().as_bytes().len();
        let room = FIELD_LEN_MAX - plen;
        let mut out = String::from_str(prefix.as_str());
        let n = field.unicode_len();
        let mut i: usize = 0;
        while i < n && i < room
            invariant
                0 <= i <= n,
                i <= room,
                room == 64 - prefix@.len(),
                n == field@.len(),
                out@ == prefix@ + field@.take(i as int).map_values(|c: char| map_char(c)),
            decreases n - i,
        {
            let c = map_field_char(field.get_char(i));
            push_char(&mut out, c);
            proof {
                assert(field@.take(i + 1) =~= field@.take(i as int).push(field@[i as int]));
                assert(field@.take(i + 1).map_values(|c: char| map_char(c)) =~= field@.take(
                    i as int,
                ).map_values(|c: char| map_char(c)).push(map_char(field@[i as int])));
                assert(prefix@ + field@.take(i as int).map_values(|c: char| map_char(c)).push(
                    map_char(field@[i as int]),
                ) =~= (prefix@ + field@.take(i as int).map_values(|c: char| map_char(c))).push(
                    map_char(field@[i as int]),
                ));
            }
            i += 1;
        }
        proof {
            let m = field@.map_values(|c: char| map_char(c));
            if i == room {
                assert(field@.take(i as int).map_values(|c: char| map_char(c)) =~= m.take(
                    room as int,
                ));
            } else {
                assert(field@.take(i as int) =~= field@);
            }
            assert(out@ == prefixed_chars(field@, prefix@));
            assert forall|j: int| 1 <= j < out@.len() implies is_field_char(#[trigger] out@[j]) by {
                if j < prefix@.len() {
                    assert(is_field_char(prefix@[j]));
                } else {
                    assert(out@[j] == map_char(field@[j - prefix@.len()]));
                    lemma_map_char(field@[j - prefix@.len()]);
                }
            }
            assert(out@.subrange(0, prefix@.len() as int) =~= prefix@);
        }
        Self { inner: out }
    }

    /// The underlying name.
    pub fn as_str(&self) -> (r: &str)
        ensures
            r@ == self@,
    {
        self.inner.as_str()
    }

    /// Borrows this owned name as a [`Field`].
    pub fn as_field(&self) -> (r: Field<'_>)
        ensures
            r@ == self@,
    {
        Field { inner: self.inner.as_str() }
    }
}

/// Exec counterpart of [`is_letter_char`].
fn is_letter_exec(c: char) -> (r: bool)
    ensures
        r == is_letter_char(c),
{
    ('A' <= c && c <= 'Z') || ('a' <= c && c <= 'z')
}

/// Law: sanitization comes up empty exactly when the input has no ASCII
/// letter, so [`OwnedField::sanitize`] is absent on precisely those inputs.
pub proof fn lemma_sanitize_absent_iff_no_letter(s: Seq<char>)
    ensures
        sanitized_chars(s).len() == 0 <==> (forall|i: int|
            0 <= i < s.len() ==> !is_letter_char(#[trigger] s[i])),
{
    lemma_skip_non_letters(s);
}

/// Law: for an input longer than 64 characters that starts with a letter,
/// or has no letter at all, sanitizing the input and sanitizing its first
/// 64 characters agree.  (When the input starts with a non-letter run and
/// still holds a later letter, the two can differ: the run is dropped
/// before, not after, the cut.)
pub proof fn lemma_sanitize_of_truncated(s: Seq<char>)
    requires
        s.len() > 64,
        is_letter_char(s[0]) || (forall|i: int|
            0 <= i < s.len() ==> !is_letter_char(#[trigger] s[i])),
    ensures
        sanitized_chars(s.take(64)) == sanitized_chars(s),
{
    let t = s.take(64);
    if is_letter_char(s[0]) {
        assert(skip_non_letters(s) == s);
        assert(t.len() == 64 && t[0] == s[0]);
        assert(skip_non_letters(t) == t);
        let ms = s.map_values(|c: char| map_char(c));
        let mt = t.map_values(|c: char| map_char(c));
        assert(mt =~= ms.take(64));
        assert(sanitized_chars(s) == ms.take(64));
        assert(sanitized_chars(t) =~= ms.take(64));
    } else {
        assert forall|i: int| 0 <= i < t.len() implies !is_letter_char(#[trigger] t[i]) by {
            assert(t[i] == s[i]);
        }
        lemma_sanitize_absent_iff_no_letter(s);
        lemma_sanitize_absent_iff_no_letter(t);
        assert(sanitized_chars(t) =~= sanitized_chars(s));
    }
}

} // verus!
