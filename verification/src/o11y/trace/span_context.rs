//! The public identity of a span: its trace id and its own id, and their W3C `traceparent` form.

use vstd::prelude::*;

use super::ids::{SpanId, TraceId, all_zero, hex_text, is_all_zero};
use crate::text::{chars_of, extend_chars, hex_digit, hex_fixed, is_ws, string_of, trim, trim_bounds, copy_range};

verus! {

/// `hex::FromHexError`, the error `hex::decode_to_slice` reports.
#[verifier::external_type_specification]
#[verifier::external_body]
pub struct ExFromHexError(hex::FromHexError);

/// The value `hex` gives a digit byte: `0`–`9`, `a`–`f` and `A`–`F`, and nothing else.
pub open spec fn hex_value(c: u8) -> Option<u8> {
    if 0x30 <= c <= 0x39 {
        Some((c - 0x30) as u8)
    } else if 0x61 <= c <= 0x66 {
        Some((c - 0x61 + 10) as u8)
    } else if 0x41 <= c <= 0x46 {
        Some((c - 0x41 + 10) as u8)
    } else {
        None
    }
}

/// `hex::decode_to_slice` into a fresh buffer of `len` bytes.
///
/// Succeeds exactly when `data` is `2 * len` digit bytes; then byte `i` is digit `2i` times sixteen plus digit
/// `2i + 1`. On failure nothing is returned but the error.
#[verifier::external_body]
fn hex_decode(data: &[u8], len: usize) -> (r: Result<Vec<u8>, hex::FromHexError>)
    ensures
        r is Ok <==> (data@.len() == 2 * len && forall|i: int| 0 <= i < data@.len() ==> (#[trigger] hex_value(data@[i])) is Some),
        r matches Ok(bytes) ==> bytes@.len() == len && forall|i: int|
            0 <= i < len ==> #[trigger] bytes@[i] == hex_value(data@[2 * i])->0 * 16 + hex_value(data@[2 * i + 1])->0,
{
    let mut out = vec![0u8; len];
    match hex::decode_to_slice(data, &mut out) {
        Ok(()) => Ok(out),
        Err(error) => Err(error),
    }
}

/// Whether `c` is a lowercase hex digit.
pub open spec fn is_lower_hex_digit(c: char) -> bool {
    ('0' <= c <= '9') || ('a' <= c <= 'f')
}

/// Whether `text` is exactly `len` lowercase hex digits.
pub open spec fn is_lower_hex(text: Seq<char>, len: nat) -> bool {
    text.len() == len && forall|i: int| 0 <= i < text.len() ==> is_lower_hex_digit(#[trigger] text[i])
}

/// The value of a lowercase hex digit.
pub open spec fn digit16(c: char) -> nat {
    if '0' <= c <= '9' {
        (c as nat - '0' as nat) as nat
    } else {
        (c as nat - 'a' as nat + 10) as nat
    }
}

/// The bytes a run of lowercase hex digits spells, two digits per byte, most significant first.
pub open spec fn hex_bytes(text: Seq<char>) -> Seq<u8> {
    Seq::new(text.len() / 2, |i: int| (digit16(text[2 * i]) * 16 + digit16(text[2 * i + 1])) as u8)
}

/// The fields of `s` between its `-` separators, as `str::split('-')` yields them: always at least one, and an
/// empty field wherever two separators meet or one stands at an end.
pub open spec fn dash_fields(s: Seq<char>) -> Seq<Seq<char>>
    decreases s.len(),
{
    if s.len() == 0 {
        seq![Seq::empty()]
    } else {
        let init = dash_fields(s.drop_last());
        if s.last() == '-' {
            init.push(Seq::empty())
        } else {
            init.update(init.len() - 1, init.last().push(s.last()))
        }
    }
}

/// The text of a list of character vectors.
pub open spec fn fields_view(fields: Seq<Vec<char>>) -> Seq<Seq<char>> {
    fields.map_values(|f: Vec<char>| f@)
}

/// The W3C `traceparent` text for a trace id and a span id: `00-<trace id>-<span id>-01`.
pub open spec fn traceparent_text(trace: Seq<u8>, span: Seq<u8>) -> Seq<char> {
    seq!['0', '0', '-'] + hex_text(trace) + seq!['-'] + hex_text(span) + seq!['-', '0', '1']
}

/// What a `traceparent` header names, as the specification tells a receiver to read it: the trace id and span id
/// bytes, or `None` when it is not a valid header.
///
/// Surrounding whitespace is ignored. The version is two lowercase hex digits other than `ff`; version `00` has
/// exactly four fields, a later version may carry more, which are skipped. The ids are exactly 32 and 16 lowercase
/// hex digits and neither may be all zeroes. The flags must be two lowercase hex digits; their value is ignored.
pub open spec fn parse_traceparent(header: Seq<char>) -> Option<(Seq<u8>, Seq<u8>)> {
    let parts = dash_fields(trim(header));
    if parts.len() < 4 {
        None
    } else {
        let version = parts[0];
        let trace = parts[1];
        let span = parts[2];
        let flags = parts[3];
        if !is_lower_hex(version, 2) || version == seq!['f', 'f'] || !is_lower_hex(flags, 2) {
            None
        } else if version == seq!['0', '0'] && parts.len() > 4 {
            None
        } else if !is_lower_hex(trace, 32) || !is_lower_hex(span, 16) {
            None
        } else if all_zero(hex_bytes(trace)) || all_zero(hex_bytes(span)) {
            None
        } else {
            Some((hex_bytes(trace), hex_bytes(span)))
        }
    }
}

/// Splits `s` at every `-`, as `str::split('-')` does.
pub fn split_dashes(s: &[char]) -> (parts: Vec<Vec<char>>)
    ensures
        fields_view(parts@) == dash_fields(s@),
{
    let mut parts: Vec<Vec<char>> = Vec::new();
    let mut current: Vec<char> = Vec::new();
    let mut i: usize = 0;
    assert(s@.subrange(0, 0) =~= Seq::<char>::empty());
    assert(fields_view(parts@).push(current@) =~= dash_fields(s@.subrange(0, 0)));
    while i < s.len()
        invariant
            i <= s@.len(),
            fields_view(parts@).push(current@) == dash_fields(s@.subrange(0, i as int)),
        decreases s@.len() - i,
    {
        let c = s[i];
        let ghost prefix = s@.subrange(0, i + 1);
        assert(prefix.drop_last() =~= s@.subrange(0, i as int));
        let ghost before_parts = fields_view(parts@);
        let ghost before_current = current@;
        if c == '-' {
            parts.push(current);
            current = Vec::new();
            assert(fields_view(parts@) =~= before_parts.push(before_current));
            assert(fields_view(parts@).push(current@) =~= dash_fields(prefix));
        } else {
            current.push(c);
            assert(fields_view(parts@).push(current@) =~= before_parts.push(before_current).update(
                before_parts.len() as int,
                before_current.push(c),
            ));
        }
        i += 1;
    }
    assert(s@.subrange(0, s@.len() as int) =~= s@);
    parts.push(current);
    parts
}

/// Whether `text` is exactly `len` lowercase hex digits.
pub fn lower_hex(text: &[char], len: usize) -> (r: bool)
    ensures
        r == is_lower_hex(text@, len as nat),
{
    if text.len() != len {
        return false;
    }
    let mut i: usize = 0;
    while i < text.len()
        invariant
            i <= text@.len(),
            forall|k: int| 0 <= k < i ==> is_lower_hex_digit(#[trigger] text@[k]),
        decreases text@.len() - i,
    {
        let c = text[i];
        if !(('0' <= c && c <= '9') || ('a' <= c && c <= 'f')) {
            return false;
        }
        i += 1;
    }
    true
}

/// Decodes exactly `len` bytes of lowercase hex, refusing any other length or case.
pub fn decode_lower_hex(text: &[char], len: usize) -> (r: Option<Vec<u8>>)
    requires
        len <= 64,
    ensures
        r is Some <==> is_lower_hex(text@, 2 * len as nat),
        r matches Some(bytes) ==> bytes@ == hex_bytes(text@),
{
    if !lower_hex(text, 2 * len) {
        return None;
    }
    let mut data: Vec<u8> = Vec::new();
    let mut i: usize = 0;
    while i < text.len()
        invariant
            is_lower_hex(text@, 2 * len as nat),
            i <= text@.len(),
            data@.len() == i,
            forall|k: int| 0 <= k < i ==> (#[trigger] data@[k]) as int == text@[k] as int,
        decreases text@.len() - i,
    {
        let c = text[i];
        assert(is_lower_hex_digit(text@[i as int]));
        data.push(c as u8);
        i += 1;
    }
    assert forall|k: int| 0 <= k < data@.len() implies (#[trigger] hex_value(data@[k])) == Some(
        digit16(text@[k]) as u8,
    ) by {
        assert(is_lower_hex_digit(text@[k]));
    }
    match hex_decode(data.as_slice(), len) {
        Ok(bytes) => {
            assert(bytes@ =~= hex_bytes(text@)) by {
                assert forall|k: int| 0 <= k < len implies bytes@[k] == hex_bytes(text@)[k] by {
                    assert(hex_value(data@[2 * k]) == Some(digit16(text@[2 * k]) as u8));
                    assert(hex_value(data@[2 * k + 1]) == Some(digit16(text@[2 * k + 1]) as u8));
                }
            }
            Some(bytes)
        },
        Err(_) => {
            assert(forall|k: int| 0 <= k < data@.len() ==> (#[trigger] hex_value(data@[k])) is Some);
            None
        },
    }
}

/// Identifies one span within one trace.
///
/// It is what crosses a boundary the span stack cannot: another thread, another process, or a frontend that
/// started the trace. [`to_traceparent`](Self::to_traceparent) and [`from_traceparent`](Self::from_traceparent)
/// carry it in the W3C trace-context header.
///
/// Neither id is ever all zeroes: the specification reserves that value as invalid, the generator never produces
/// it, and the parser refuses it.
#[derive(Debug, Clone, Copy)]
pub struct SpanContext {
    /// The trace the span belongs to.
    pub(crate) trace_id: TraceId,
    /// The span's own id.
    pub(crate) span_id: SpanId,
}

impl SpanContext {
    /// The trace id's bytes.
    pub closed spec fn trace_bytes(self) -> Seq<u8> {
        self.trace_id.0@
    }

    /// The span id's bytes.
    pub closed spec fn span_bytes(self) -> Seq<u8> {
        self.span_id.0@
    }

    /// A context naming `trace_id` and `span_id`.
    pub fn of(trace_id: TraceId, span_id: SpanId) -> (c: Self)
        ensures
            c.trace_bytes() == trace_id.0@,
            c.span_bytes() == span_id.0@,
    {
        SpanContext { trace_id, span_id }
    }

    /// The 16-byte trace id.
    pub fn trace_id(&self) -> (bytes: [u8; 16])
        ensures
            bytes@ == self.trace_bytes(),
    {
        self.trace_id.0
    }

    /// The 8-byte span id.
    pub fn span_id(&self) -> (bytes: [u8; 8])
        ensures
            bytes@ == self.span_bytes(),
    {
        self.span_id.0
    }

    /// The trace id as 32 lowercase hex digits.
    pub fn trace_id_hex(&self) -> (s: String)
        ensures
            s@ == hex_text(self.trace_bytes()),
    {
        self.trace_id.to_hex()
    }

    /// The span id as 16 lowercase hex digits.
    pub fn span_id_hex(&self) -> (s: String)
        ensures
            s@ == hex_text(self.span_bytes()),
    {
        self.span_id.to_hex()
    }

    /// The W3C `traceparent` header value: `00-<trace id>-<span id>-01`.
    ///
    /// The flags are always `01`, sampled: nothing is sampled out, so every span reported is recorded.
    pub fn to_traceparent(&self) -> (s: String)
        ensures
            s@ == traceparent_text(self.trace_bytes(), self.span_bytes()),
    {
        let mut out: Vec<char> = Vec::new();
        out.push('0');
        out.push('0');
        out.push('-');
        let trace = chars_of(self.trace_id_hex().as_str());
        extend_chars(&mut out, trace.as_slice());
        out.push('-');
        let span = chars_of(self.span_id_hex().as_str());
        extend_chars(&mut out, span.as_slice());
        out.push('-');
        out.push('0');
        out.push('1');
        assert(out@ =~= traceparent_text(self.trace_bytes(), self.span_bytes()));
        string_of(out.as_slice())
    }

    /// Parses a W3C `traceparent` header value, or returns `None` if it is not one; see [`parse_traceparent`] for
    /// the rules a receiver follows.
    pub fn from_traceparent(header: &str) -> (r: Option<Self>)
        ensures
            match parse_traceparent(header@) {
                None => r is None,
                Some(ids) => r matches Some(c) && c.trace_bytes() == ids.0 && c.span_bytes() == ids.1,
            },
    {
        let chars = chars_of(header);
        let (start, end) = trim_bounds(chars.as_slice());
        let body = copy_range(chars.as_slice(), start, end);
        let parts = split_dashes(body.as_slice());
        let ghost pv = fields_view(parts@);
        if parts.len() < 4 {
            return None;
        }
        let version = parts[0].as_slice();
        let trace = parts[1].as_slice();
        let span = parts[2].as_slice();
        let flags = parts[3].as_slice();
        assert(version@ == pv[0] && trace@ == pv[1] && span@ == pv[2] && flags@ == pv[3]);
        if !lower_hex(version, 2) || !lower_hex(flags, 2) {
            return None;
        }
        let is_ff = version[0] == 'f' && version[1] == 'f';
        assert(is_ff <==> version@ == seq!['f', 'f']) by {
            if is_ff {
                assert(version@ =~= seq!['f', 'f']);
            }
        }
        if is_ff {
            return None;
        }
        let is_v00 = version[0] == '0' && version[1] == '0';
        assert(is_v00 <==> version@ == seq!['0', '0']) by {
            if is_v00 {
                assert(version@ =~= seq!['0', '0']);
            }
        }
        if is_v00 && parts.len() > 4 {
            return None;
        }
        let trace_bytes = match decode_lower_hex(trace, 16) {
            Some(bytes) => bytes,
            None => {
                return None;
            },
        };
        let span_bytes = match decode_lower_hex(span, 8) {
            Some(bytes) => bytes,
            None => {
                return None;
            },
        };
        if is_all_zero(trace_bytes.as_slice()) || is_all_zero(span_bytes.as_slice()) {
            return None;
        }
        let mut trace_id = [0u8; 16];
        let mut i: usize = 0;
        while i < 16
            invariant
                i <= 16,
                trace_bytes@.len() == 16,
                trace_id@.len() == 16,
                forall|k: int| 0 <= k < i ==> trace_id@[k] == trace_bytes@[k],
            decreases 16 - i,
        {
            trace_id[i] = trace_bytes[i];
            i += 1;
        }
        let mut span_id = [0u8; 8];
        let mut j: usize = 0;
        while j < 8
            invariant
                j <= 8,
                span_bytes@.len() == 8,
                span_id@.len() == 8,
                forall|k: int| 0 <= k < j ==> span_id@[k] == span_bytes@[k],
            decreases 8 - j,
        {
            span_id[j] = span_bytes[j];
            j += 1;
        }
        assert(trace_id@ =~= trace_bytes@);
        assert(span_id@ =~= span_bytes@);
        Some(SpanContext { trace_id: TraceId(trace_id), span_id: SpanId(span_id) })
    }
}

/// A split always yields at least one field.
proof fn lemma_fields_nonempty(s: Seq<char>)
    ensures
        dash_fields(s).len() >= 1,
    decreases s.len(),
{
    if s.len() > 0 {
        lemma_fields_nonempty(s.drop_last());
    }
}

/// Text with no `-` in it is a single field.
proof fn lemma_fields_of_undashed(s: Seq<char>)
    requires
        forall|i: int| 0 <= i < s.len() ==> s[i] != '-',
    ensures
        dash_fields(s) == seq![s],
    decreases s.len(),
{
    if s.len() > 0 {
        lemma_fields_of_undashed(s.drop_last());
        assert(s.drop_last().push(s.last()) =~= s);
    } else {
        assert(s =~= Seq::<char>::empty());
    }
}

/// Splitting `a`, a dash, and `b` gives the fields of `a` followed by the fields of `b`.
proof fn lemma_fields_concat(a: Seq<char>, b: Seq<char>)
    ensures
        dash_fields(a + seq!['-'] + b) == dash_fields(a) + dash_fields(b),
    decreases b.len(),
{
    let whole = a + seq!['-'] + b;
    if b.len() == 0 {
        assert(whole.drop_last() =~= a);
        assert(dash_fields(b) =~= seq![Seq::<char>::empty()]);
        assert(dash_fields(a).push(Seq::empty()) =~= dash_fields(a) + dash_fields(b));
    } else {
        lemma_fields_concat(a, b.drop_last());
        assert(whole.drop_last() =~= a + seq!['-'] + b.drop_last());
        lemma_fields_nonempty(b.drop_last());
        lemma_fields_nonempty(a);
        let head = dash_fields(a);
        let init = dash_fields(b.drop_last());
        if b.last() == '-' {
            assert((head + init).push(Seq::empty()) =~= head + init.push(Seq::empty()));
        } else {
            assert((head + init).update((head + init).len() - 1, (head + init).last().push(b.last())) =~= head
                + init.update(init.len() - 1, init.last().push(b.last())));
        }
    }
}

/// A hex digit decodes to the value it was written for.
proof fn lemma_digit_round_trip(d: nat)
    requires
        d < 16,
    ensures
        is_lower_hex_digit(hex_digit(d)),
        digit16(hex_digit(d)) == d,
        hex_digit(d) != '-',
{
}

/// The shape of the hex form: two digits per byte, the high nibble's first.
proof fn lemma_hex_text_shape(bytes: Seq<u8>)
    ensures
        hex_text(bytes).len() == 2 * bytes.len(),
        forall|i: int|
            0 <= i < bytes.len() ==> hex_text(bytes)[2 * i] == hex_digit((bytes[i] / 16) as nat) && hex_text(
                bytes,
            )[2 * i + 1] == hex_digit((bytes[i] % 16) as nat),
    decreases bytes.len(),
{
    if bytes.len() > 0 {
        let init = bytes.drop_last();
        lemma_hex_text_shape(init);
        let v = bytes.last() as nat;
        assert(hex_fixed(v, 2) =~= seq![hex_digit((v / 16) % 16), hex_digit(v % 16)]) by {
            assert(hex_fixed(v / 16 / 16, 0) =~= Seq::<char>::empty());
            assert(hex_fixed(v / 16, 1) == hex_fixed(v / 16 / 16, 0).push(hex_digit((v / 16) % 16)));
            assert(hex_fixed(v, 2) == hex_fixed(v / 16, 1).push(hex_digit(v % 16)));
        }
        assert((v / 16) % 16 == v / 16);
        assert forall|i: int| 0 <= i < bytes.len() implies hex_text(bytes)[2 * i] == hex_digit(
            (bytes[i] / 16) as nat,
        ) && hex_text(bytes)[2 * i + 1] == hex_digit((bytes[i] % 16) as nat) by {
            if i < init.len() {
                assert(bytes[i] == init[i]);
            }
        }
    }
}

/// The hex form of some bytes is lowercase hex of twice their length, holds no dash, and decodes back to them.
proof fn lemma_hex_round_trip(bytes: Seq<u8>)
    ensures
        is_lower_hex(hex_text(bytes), 2 * bytes.len()),
        forall|i: int| 0 <= i < hex_text(bytes).len() ==> hex_text(bytes)[i] != '-',
        hex_bytes(hex_text(bytes)) == bytes,
{
    lemma_hex_text_shape(bytes);
    let t = hex_text(bytes);
    assert forall|i: int| 0 <= i < t.len() implies is_lower_hex_digit(#[trigger] t[i]) && t[i] != '-' by {
        let j = i / 2;
        if i % 2 == 0 {
            assert(i == 2 * j);
            lemma_digit_round_trip((bytes[j] / 16) as nat);
        } else {
            assert(i == 2 * j + 1);
            lemma_digit_round_trip((bytes[j] % 16) as nat);
        }
    }
    assert forall|j: int| 0 <= j < bytes.len() implies hex_bytes(t)[j] == bytes[j] by {
        lemma_digit_round_trip((bytes[j] / 16) as nat);
        lemma_digit_round_trip((bytes[j] % 16) as nat);
    }
    assert(hex_bytes(t) =~= bytes);
}

/// Whether `text` is all `0` digits.
pub open spec fn all_zero_digits(text: Seq<char>) -> bool {
    forall|i: int| 0 <= i < text.len() ==> text[i] == '0'
}

/// A lowercase hex digit is the digit of its own value, and that value is below sixteen; it is zero only for `0`.
proof fn lemma_lower_digit(c: char)
    requires
        is_lower_hex_digit(c),
    ensures
        digit16(c) < 16,
        hex_digit(digit16(c)) == c,
        digit16(c) == 0 <==> c == '0',
{
    assert('0' as nat == 0x30);
    assert('a' as nat == 0x61);
}

/// Lowercase hex text of even length is the hex form of the bytes it spells, and those bytes are all zero exactly
/// when every digit is `0`.
proof fn lemma_hex_text_of_bytes(t: Seq<char>)
    requires
        is_lower_hex(t, t.len()),
        t.len() % 2 == 0,
    ensures
        hex_text(hex_bytes(t)) == t,
        all_zero(hex_bytes(t)) <==> all_zero_digits(t),
{
    let b = hex_bytes(t);
    lemma_hex_text_shape(b);
    assert forall|j: int| 0 <= j < b.len() implies b[j] / 16 == digit16(t[2 * j]) && b[j] % 16 == digit16(
        t[2 * j + 1],
    ) && (b[j] == 0 <==> (t[2 * j] == '0' && t[2 * j + 1] == '0')) by {
        lemma_lower_digit(t[2 * j]);
        lemma_lower_digit(t[2 * j + 1]);
    }
    assert forall|k: int| 0 <= k < t.len() implies hex_text(b)[k] == t[k] by {
        let j = k / 2;
        lemma_lower_digit(t[k]);
        assert(0 <= j < b.len());
        assert(b[j] / 16 == digit16(t[2 * j]) && b[j] % 16 == digit16(t[2 * j + 1]));
        assert(hex_text(b)[2 * j] == hex_digit((b[j] / 16) as nat));
        assert(hex_text(b)[2 * j + 1] == hex_digit((b[j] % 16) as nat));
        if k % 2 == 0 {
            assert(k == 2 * j);
        } else {
            assert(k == 2 * j + 1);
        }
    }
    assert(hex_text(b) =~= t);
    if all_zero(b) {
        assert forall|k: int| 0 <= k < t.len() implies t[k] == '0' by {
            let j = k / 2;
            if k % 2 == 0 {
                assert(k == 2 * j);
            } else {
                assert(k == 2 * j + 1);
            }
            assert(b[j] == 0);
        }
    }
    if all_zero_digits(t) {
        assert forall|j: int| 0 <= j < b.len() implies b[j] == 0 by {
            assert(t[2 * j] == '0' && t[2 * j + 1] == '0');
        }
    }
}

/// Which `traceparent` headers are accepted, said field by field of the trimmed header split at its dashes: a
/// version of two lowercase hex digits other than `ff`, exactly four fields when the version is `00` and at least
/// four otherwise, a trace id of 32 and a span id of 16 lowercase hex digits neither of which is all `0`, and flags of
/// two lowercase hex digits. What an accepted header names is the ids whose hex form is exactly its second and third
/// fields.
pub proof fn accepted_traceparent_headers(header: Seq<char>)
    ensures
        ({
            let parts = dash_fields(trim(header));
            &&& parse_traceparent(header) is Some <==> {
                &&& parts.len() >= 4
                &&& is_lower_hex(parts[0], 2) && parts[0] != seq!['f', 'f']
                &&& parts[0] == seq!['0', '0'] ==> parts.len() == 4
                &&& is_lower_hex(parts[1], 32) && !all_zero_digits(parts[1])
                &&& is_lower_hex(parts[2], 16) && !all_zero_digits(parts[2])
                &&& is_lower_hex(parts[3], 2)
            }
            &&& parse_traceparent(header) matches Some((trace, span)) ==> hex_text(trace) == parts[1] && hex_text(
                span,
            ) == parts[2]
        }),
{
    let parts = dash_fields(trim(header));
    if parts.len() >= 4 {
        if is_lower_hex(parts[1], 32) {
            lemma_hex_text_of_bytes(parts[1]);
        }
        if is_lower_hex(parts[2], 16) {
            lemma_hex_text_of_bytes(parts[2]);
        }
    }
}

/// What is written is what is read back: the `traceparent` form of a context whose ids are valid (16 and 8 bytes,
/// neither all zeroes) parses back to exactly those ids.
pub proof fn traceparent_round_trips(trace: Seq<u8>, span: Seq<u8>)
    requires
        trace.len() == 16,
        span.len() == 8,
        !all_zero(trace),
        !all_zero(span),
    ensures
        parse_traceparent(traceparent_text(trace, span)) == Some((trace, span)),
{
    let h1 = hex_text(trace);
    let h2 = hex_text(span);
    lemma_hex_round_trip(trace);
    lemma_hex_round_trip(span);
    let text = traceparent_text(trace, span);
    let v = seq!['0', '0'];
    let f = seq!['0', '1'];
    assert(text =~= v + seq!['-'] + (h1 + seq!['-'] + (h2 + seq!['-'] + f)));
    assert(!is_ws(text[0]));
    assert(!is_ws(text.last()));
    assert(trim(text) == text);
    lemma_fields_concat(v, h1 + seq!['-'] + (h2 + seq!['-'] + f));
    lemma_fields_concat(h1, h2 + seq!['-'] + f);
    lemma_fields_concat(h2, f);
    lemma_fields_of_undashed(v);
    lemma_fields_of_undashed(f);
    lemma_fields_of_undashed(h1);
    lemma_fields_of_undashed(h2);
    let parts = dash_fields(text);
    assert(parts =~= seq![v, h1, h2, f]);
    assert(v != seq!['f', 'f']) by {
        assert(v[0] != 'f');
    }
}

} // verus!
