//! The metadata frame that leads a file transfer: `"<filename>:<size>"`.
use vstd::prelude::*;
use crate::error::SessionError;
use crate::text::{
    chars_of, decimal, digits_part, format_decimal, is_digit_spec, is_space_spec, is_trimmed, is_u64_text,
    lacks, lemma_decimal_reads_back, lemma_trim_end_of_trimmed, lemma_trim_start_of_trimmed,
    no_space, parse_decimal, string_of, text_of_bytes, trim, trim_bounds, u64_value,
};

verus! {

/// What precedes a file's bytes on the connection.
#[derive(Debug, Clone, PartialEq, Eq)]
pub struct TransferMetadata {
    pub filename: String,
    /// The number of payload bytes that follow the frame.
    pub size: u64,
}

/// The view of a metadata frame: a file name and a size.
pub struct MetadataView {
    pub filename: Seq<char>,
    pub size: nat,
}

impl View for TransferMetadata {
    type V = MetadataView;

    open spec fn view(&self) -> MetadataView {
        MetadataView { filename: self.filename@, size: self.size as nat }
    }
}

/// `k` is the only place of a `':'` in `s`.
pub open spec fn sole_colon_at(s: Seq<char>, k: int) -> bool {
    &&& 0 <= k < s.len()
    &&& s[k] == ':'
    &&& lacks(s.subrange(0, k), ':')
    &&& lacks(s.subrange(k + 1, s.len() as int), ':')
}

/// The metadata that the text `s` carries: it splits on `':'` into exactly two
/// fields, the name and the size, each trimmed, and the size is a `u64` in
/// base ten, with an optional leading `'+'`.
pub open spec fn metadata_of(s: Seq<char>) -> Option<MetadataView> {
    if exists|k: int| sole_colon_at(s, k) {
        let k = choose|k: int| sole_colon_at(s, k);
        let size = trim(s.subrange(k + 1, s.len() as int));
        if is_u64_text(size) {
            Some(MetadataView { filename: trim(s.subrange(0, k)), size: u64_value(size) })
        } else {
            None
        }
    } else {
        None
    }
}

/// The text of the frame for `m`.
pub open spec fn metadata_text(m: MetadataView) -> Seq<char> {
    m.filename + seq![':'] + decimal(m.size)
}

/// The frame that announces `meta`.
pub fn encode_metadata(meta: &TransferMetadata) -> (r: String)
    ensures
        r@ == metadata_text(meta@),
{
    let digits = format_decimal(meta.size);
    let n = string_of(&digits, 0, digits.len());
    proof {
        reveal_strlit(":");
        assert(digits@.subrange(0, digits.len() as int) == digits@);
    }
    let head = meta.filename.clone().concat(":");
    head.concat(n.as_str())
}

proof fn lemma_sole_colon_unique(s: Seq<char>, k: int, j: int)
    requires
        sole_colon_at(s, k),
        0 <= j < s.len(),
        s[j] == ':',
    ensures
        j == k,
{
    if j < k {
        assert(s.subrange(0, k)[j] == ':');
    } else if j > k {
        assert(s.subrange(k + 1, s.len() as int)[j - k - 1] == ':');
    }
}

proof fn lemma_two_colons(s: Seq<char>, i: int, j: int)
    requires
        0 <= i < j < s.len(),
        s[i] == ':',
        s[j] == ':',
    ensures
        forall|k: int| !sole_colon_at(s, k),
{
    assert forall|k: int| !sole_colon_at(s, k) by {
        if sole_colon_at(s, k) {
            lemma_sole_colon_unique(s, k, i);
            lemma_sole_colon_unique(s, k, j);
        }
    }
}

proof fn lemma_lacks_extend(s: Seq<char>, lo: int, i: int, c: char)
    requires
        0 <= lo <= i < s.len(),
        lacks(s.subrange(lo, i), c),
        s[i] != c,
    ensures
        lacks(s.subrange(lo, i + 1), c),
{
    assert forall|j: int| 0 <= j < i + 1 - lo implies #[trigger] s.subrange(lo, i + 1)[j] != c by {
        if j < i - lo {
            assert(s.subrange(lo, i)[j] == s[lo + j]);
        }
    }
}

/// Reads a metadata frame from the bytes of one read.
pub fn decode_metadata(bytes: &[u8]) -> (r: Result<TransferMetadata, SessionError>)
    ensures
        match r {
            Ok(m) => vstd::utf8::valid_utf8(bytes@) && metadata_of(vstd::utf8::decode_utf8(bytes@))
                == Some(m@),
            Err(e) => e == SessionError::MalformedFrame && (!vstd::utf8::valid_utf8(bytes@)
                || metadata_of(vstd::utf8::decode_utf8(bytes@)) is None),
        },
{
    let text = match text_of_bytes(bytes) {
        Some(t) => t,
        None => {
            return Err(SessionError::MalformedFrame);
        },
    };
    let s = chars_of(text);
    let n = s.len();
    let mut colon: usize = n;
    let mut i: usize = 0;
    while i < n
        invariant
            n == s.len(),
            s@ == text@,
            vstd::utf8::valid_utf8(bytes@),
            text@ == vstd::utf8::decode_utf8(bytes@),
            i <= n,
            colon <= n,
            colon == n ==> lacks(s@.subrange(0, i as int), ':'),
            colon < n ==> colon < i && s@[colon as int] == ':' && lacks(
                s@.subrange(0, colon as int),
                ':',
            ) && lacks(s@.subrange(colon + 1, i as int), ':'),
        decreases n - i,
    {
        if s[i] == ':' {
            if colon < n {
                proof {
                    lemma_two_colons(s@, colon as int, i as int);
                }
                return Err(SessionError::MalformedFrame);
            }
            colon = i;
            assert(s@.subrange(colon + 1, i + 1) == Seq::<char>::empty());
        } else {
            proof {
                if colon == n {
                    lemma_lacks_extend(s@, 0, i as int, ':');
                } else {
                    lemma_lacks_extend(s@, colon + 1, i as int, ':');
                }
            }
        }
        i = i + 1;
    }
    if colon == n {
        proof {
            assert(s@.subrange(0, n as int) == s@);
            assert forall|k: int| !sole_colon_at(s@, k) by {
                if 0 <= k < n && s@[k] == ':' {
                    assert(s@.subrange(0, n as int)[k] == ':');
                }
            }
        }
        return Err(SessionError::MalformedFrame);
    }
    proof {
        assert(s@.subrange(colon + 1, n as int) == s@.subrange(colon + 1, i as int));
        assert(sole_colon_at(s@, colon as int));
        let k = choose|k: int| sole_colon_at(s@, k);
        lemma_sole_colon_unique(s@, colon as int, k);
    }
    let (a, b) = trim_bounds(&s, 0, colon);
    let (c, d) = trim_bounds(&s, colon + 1, n);
    match parse_decimal(&s, c, d) {
        Some(size) => Ok(TransferMetadata { filename: string_of(&s, a, b), size }),
        None => Err(SessionError::MalformedFrame),
    }
}

/// A name with no `':'` and a size survive the trip through the frame text,
/// the name without the whitespace at its ends.
pub proof fn lemma_metadata_text(m: MetadataView)
    requires
        lacks(m.filename, ':'),
        m.size <= u64::MAX,
    ensures
        metadata_of(metadata_text(m)) == Some(
            MetadataView { filename: trim(m.filename), size: m.size },
        ),
{
    let s = metadata_text(m);
    let k = m.filename.len() as int;
    lemma_decimal_reads_back(m.size);
    let num = decimal(m.size);
    assert(s.subrange(0, k) == m.filename);
    assert(s.subrange(k + 1, s.len() as int) == num);
    assert(lacks(num, ':')) by {
        assert forall|i: int| 0 <= i < num.len() implies #[trigger] num[i] != ':' by {
            assert(is_digit_spec(num[i]));
        }
    }
    assert(sole_colon_at(s, k));
    let j = choose|j: int| sole_colon_at(s, j);
    lemma_sole_colon_unique(s, k, j);
    assert(no_space(num)) by {
        assert forall|i: int| 0 <= i < num.len() implies !is_space_spec(#[trigger] num[i]) by {
            assert(is_digit_spec(num[i]));
        }
    }
    lemma_trim_start_of_trimmed(num);
    lemma_trim_end_of_trimmed(num);
    assert(is_digit_spec(num[0]));
    assert(digits_part(num) == num);
}

/// A name with no `':'` and no whitespace at its ends, and a size, survive the
/// trip through the frame text.
pub proof fn lemma_metadata_round_trip(m: MetadataView)
    requires
        lacks(m.filename, ':'),
        is_trimmed(m.filename),
        m.size <= u64::MAX,
    ensures
        metadata_of(metadata_text(m)) == Some(m),
{
    lemma_metadata_text(m);
    lemma_trim_start_of_trimmed(m.filename);
    lemma_trim_end_of_trimmed(m.filename);
}

/// A frame whose name holds a `':'` splits into more than two fields.
pub proof fn lemma_metadata_colon_in_name(m: MetadataView)
    requires
        !lacks(m.filename, ':'),
    ensures
        metadata_of(metadata_text(m)) is None,
{
    let s = metadata_text(m);
    let j = choose|j: int| 0 <= j < m.filename.len() && m.filename[j] == ':';
    assert(s[j] == ':');
    assert(s[m.filename.len() as int] == ':');
    lemma_two_colons(s, j, m.filename.len() as int);
}

/// The same trip, from the bytes that the frame text is sent as.
pub proof fn lemma_metadata_bytes_round_trip(m: MetadataView)
    requires
        lacks(m.filename, ':'),
        is_trimmed(m.filename),
        m.size <= u64::MAX,
    ensures
        vstd::utf8::valid_utf8(vstd::utf8::encode_utf8(metadata_text(m))),
        metadata_of(vstd::utf8::decode_utf8(vstd::utf8::encode_utf8(metadata_text(m)))) == Some(m),
{
    vstd::utf8::encode_utf8_valid_utf8(metadata_text(m));
    vstd::utf8::encode_utf8_decode_utf8(metadata_text(m));
    lemma_metadata_round_trip(m);
}

} // verus!
