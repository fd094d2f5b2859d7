//! The route that replaces the daemon's binary: the checksum test of the
//! download and the name of the file it goes to.

use vstd::prelude::*;
use std::collections::HashMap;

verus! {
/// Body of the route that upgrades the daemon's binary.
pub struct Payload {
    pub url: String,
    pub headers: HashMap<String, String>,
    pub sha256: String,
    pub restart_command: String,
    pub restart_command_args: Vec<String>,
}

/// Why the upgrade route refuses a request.
#[derive(Clone, Copy, Debug, PartialEq, Eq, Structural)]
pub enum UpgradeRejection {
    /// The running binary's directory is unknown.
    NoParentDirectory,
    /// The running binary's file name is unknown.
    NoFileName,
    /// The download's checksum differs from the announced one.
    ChecksumMismatch,
}

impl UpgradeRejection {
    /// The HTTP status that answers the refusal.
    pub fn status(&self) -> (r: u16)
        ensures
            r == (match *self {
                UpgradeRejection::ChecksumMismatch => 409u16,
                _ => 400u16,
            }),
    {
        match self {
            UpgradeRejection::ChecksumMismatch => 409,
            _ => 400,
        }
    }

    /// The error message that answers the refusal.
    pub fn message(&self) -> (r: &'static str)
        ensures
            r@ == (match *self {
                UpgradeRejection::NoParentDirectory => "unable to find parent of current exe"@,
                UpgradeRejection::NoFileName => "unable to find file name of current exe"@,
                UpgradeRejection::ChecksumMismatch => "downloaded file does not match provided sha256"@,
            }),
    {
        match self {
            UpgradeRejection::NoParentDirectory => "unable to find parent of current exe",
            UpgradeRejection::NoFileName => "unable to find file name of current exe",
            UpgradeRejection::ChecksumMismatch => "downloaded file does not match provided sha256",
        }
    }
}

/// The lower-case hexadecimal digit of `d` (below 16).
pub open spec fn hex_char(d: nat) -> char {
    if d < 10 {
        ((48 + d) as u8) as char
    } else {
        ((87 + d) as u8) as char
    }
}

/// `bytes` in lower-case hexadecimal, two digits a byte.
pub open spec fn lower_hex(bytes: Seq<u8>) -> Seq<char>
    decreases bytes.len(),
{
    if bytes.len() == 0 {
        Seq::empty()
    } else {
        lower_hex(bytes.drop_last()) + seq![
            hex_char((bytes.last() / 16) as nat),
            hex_char((bytes.last() % 16) as nat),
        ]
    }
}

fn hex_digit_char(d: u8) -> (r: char)
    requires
        d < 16,
    ensures
        r == hex_char(d as nat),
{
    if d < 10 {
        (48 + d) as char
    } else {
        (87 + d) as char
    }
}

/// Writes `bytes` in lower-case hexadecimal, as the `{:x}` format of a digest
/// does.
pub fn lower_hex_string(bytes: &[u8]) -> (r: String)
    ensures
        r@ == lower_hex(bytes@),
{
    let mut out = String::new();
    let mut i: usize = 0;
    while i < bytes.len()
        invariant
            i <= bytes@.len(),
            out@ == lower_hex(bytes@.take(i as int)),
        decreases bytes@.len() - i,
    {
        let b = bytes[i];
        crate::text::push_char(&mut out, hex_digit_char(b / 16));
        crate::text::push_char(&mut out, hex_digit_char(b % 16));
        let ghost next = bytes@.take(i + 1);
        assert(next.drop_last() =~= bytes@.take(i as int));
        assert(next.last() == b);
        i += 1;
    }
    assert(bytes@.take(bytes@.len() as int) =~= bytes@);
    out
}

/// Whether a downloaded file is the one the panel announced: the
/// hexadecimal text of its SHA-256 digest equals the given checksum.
pub fn digest_matches(digest: &[u8], expected: &str) -> (r: bool)
    ensures
        r == (lower_hex(digest@) == expected@),
{
    let hex = lower_hex_string(digest);
    let mut want = String::new();
    want.append(expected);
    hex.eq(&want)
}

/// The SHA-256 digest of `data`.
pub uninterp spec fn sha256_of(data: Seq<u8>) -> Seq<u8>;

/// The SHA-256 digest of `data`.
///
/// Wraps `sha2::Sha256::digest` of the `Digest` trait. Its result, 32 bytes
/// long, depends on `data` alone; `sha256_of` stands for it.
#[verifier::external_body]
fn sha256_digest(data: &[u8]) -> (r: Vec<u8>)
    ensures
        r@ == sha256_of(data@),
        r@.len() == 32,
{
    <sha2::Sha256 as sha2::Digest>::digest(data).to_vec()
}

/// Whether the downloaded `contents` are the file the panel announced: the
/// hexadecimal text of their SHA-256 digest equals `expected`.
pub fn checksum_matches(contents: &[u8], expected: &str) -> (r: bool)
    ensures
        r == (lower_hex(sha256_of(contents@)) == expected@),
{
    let digest = sha256_digest(contents);
    digest_matches(digest.as_slice(), expected)
}

/// The name of the file that receives the new binary, beside the running
/// one: the running binary's name with `.upgrade` appended.
pub fn upgrade_file_name(executable_name: &str) -> (r: String)
    ensures
        r@ == executable_name@ + ".upgrade"@,
{
    let mut out = String::new();
    out.append(executable_name);
    out.append(".upgrade");
    out
}

} // verus!
