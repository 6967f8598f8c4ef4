use vstd::prelude::*;
use vstd::string::*;

verus! {

/// The SHA-256 digest of the bytes, written as lowercase hexadecimal text.
pub uninterp spec fn sha256_hex(data: Seq<u8>) -> Seq<char>;

/// A lowercase hexadecimal digit.
pub open spec fn is_lower_hex(c: char) -> bool {
    ('0' <= c <= '9') || ('a' <= c <= 'f')
}

/// Relies on sha256::digest_bytes: it hex-encodes (lowercase, two digits per byte) the
/// 32-byte SHA-256 digest of the input, so the text is 64 hexadecimal digits.
#[verifier::external_body]
fn sha256_digest(data: &[u8]) -> (r: String)
    ensures
        r@ == sha256_hex(data@),
        r@.len() == 64,
        forall|i: int| 0 <= i < r@.len() ==> is_lower_hex(#[trigger] r@[i]),
{
    sha256::digest_bytes(data)
}

/// The entity tag of a file's contents: the first 32 hexadecimal digits of their SHA-256
/// digest.
pub open spec fn etag_of(data: Seq<u8>) -> Seq<char> {
    sha256_hex(data).subrange(0, 32)
}

/// Computes the entity tag of a file's contents.
pub fn etag(contents: &[u8]) -> (r: String)
    ensures
        r@ == etag_of(contents@),
        r@.len() == 32,
        forall|i: int| 0 <= i < r@.len() ==> is_lower_hex(#[trigger] r@[i]),
{
    let digest = sha256_digest(contents);
    let text = digest.as_str();
    assert(text.is_ascii()) by {
        assert forall|i: int| 0 <= i < text@.len() implies '\0' <= #[trigger] text@[i]
            <= '\u{7f}' by {
            assert(is_lower_hex(digest@[i]));
        }
    }
    text.substring_ascii(0, 32).to_owned()
}

/// Computing the entity tag of identical bytes twice yields the identical tag: the tag is a
/// function of the bytes alone.
pub proof fn lemma_etag_deterministic(a: Seq<u8>, b: Seq<u8>)
    requires
        a == b,
    ensures
        etag_of(a) == etag_of(b),
{
}

/// The MIME type that mime_guess gives a path by its extension, as text.
pub uninterp spec fn mime_guess_of(path: Seq<char>) -> Seq<char>;

/// Relies on mime_guess::from_path(..).first_or_octet_stream(): the first MIME type known for
/// the path's extension, or `application/octet-stream`; no disk access.
#[verifier::external_body]
pub(crate) fn mime(path: &str) -> (r: String)
    ensures
        r@ == mime_guess_of(path@),
{
    mime_guess::from_path(path).first_or_octet_stream().to_string()
}

/// The decimal digit for `d`, which is below 10.
pub open spec fn digit_char(d: nat) -> char {
    seq!['0', '1', '2', '3', '4', '5', '6', '7', '8', '9'][d as int]
}

/// The decimal text of `n`, without leading zeros.
pub open spec fn decimal(n: nat) -> Seq<char>
    decreases n,
{
    if n < 10 {
        seq![digit_char(n)]
    } else {
        decimal(n / 10) + seq![digit_char(n % 10)]
    }
}

fn digit_text(d: u64) -> (r: &'static str)
    requires
        d < 10,
    ensures
        r@ == seq![digit_char(d as nat)],
{
    proof {
        reveal_strlit("0");
        reveal_strlit("1");
        reveal_strlit("2");
        reveal_strlit("3");
        reveal_strlit("4");
        reveal_strlit("5");
        reveal_strlit("6");
        reveal_strlit("7");
        reveal_strlit("8");
        reveal_strlit("9");
    }
    let r = match d {
        0 => "0",
        1 => "1",
        2 => "2",
        3 => "3",
        4 => "4",
        5 => "5",
        6 => "6",
        7 => "7",
        8 => "8",
        _ => "9",
    };
    assert(r@ =~= seq![digit_char(d as nat)]);
    r
}

/// Writes `n` in decimal.
pub fn decimal_text(n: u64) -> (r: String)
    ensures
        r@ == decimal(n as nat),
    decreases n,
{
    if n < 10 {
        digit_text(n).to_owned()
    } else {
        let mut r = decimal_text(n / 10);
        r.append(digit_text(n % 10));
        r
    }
}

/// The seconds that stand for a file's modification time: its own when the file system
/// gives one, else the time of the computation.
pub open spec fn modified_or_now(modified: Option<u64>, now: u64) -> u64 {
    match modified {
        Some(m) => m,
        None => now,
    }
}

/// The last-modified text of a file: seconds since the Unix epoch in decimal, taken from
/// `modified` when the file system gave it, else from `now`.
pub fn last_modified(modified: Option<u64>, now: u64) -> (r: String)
    ensures
        r@ == decimal(modified_or_now(modified, now) as nat),
{
    match modified {
        Some(m) => decimal_text(m),
        None => decimal_text(now),
    }
}

} // verus!
