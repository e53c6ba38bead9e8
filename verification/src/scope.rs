//! Login-scope digests. A scope names which native login and configuration a
//! cached result belongs to, as a one-way SHA-256 digest; credentials never
//! leave the digest input.
use sha2::Digest;
use vstd::prelude::*;

verus! {

/// The SHA-256 digest of `data`.
pub uninterp spec fn spec_sha256(data: Seq<u8>) -> Seq<u8>;

/// Calls `sha2::Sha256::digest` and returns the 32-byte digest, named by
/// `spec_sha256`, a function of the bytes alone.
#[verifier::external_body]
pub(crate) fn sha256_bytes(data: &[u8]) -> (h: [u8; 32])
    ensures
        h@ == spec_sha256(data@),
{
    sha2::Sha256::digest(data).into()
}

/// The lower-case hexadecimal digit of `n`, below sixteen.
pub open spec fn hex_digit(n: u8) -> char {
    if n < 10 { ((48 + n) as u8) as char } else { ((87 + n) as u8) as char }
}

/// Each byte as two lower-case hexadecimal digits, the high one first.
pub open spec fn lower_hex(bytes: Seq<u8>) -> Seq<char>
    decreases bytes.len(),
{
    if bytes.len() == 0 {
        Seq::empty()
    } else {
        lower_hex(bytes.drop_last()) + seq![hex_digit(bytes.last() / 16), hex_digit(bytes.last() % 16)]
    }
}

/// The lower-case hexadecimal SHA-256 digest of `data`.
pub open spec fn spec_sha256_hex(data: Seq<u8>) -> Seq<char> {
    lower_hex(spec_sha256(data))
}

fn hex_digit_of(n: u8) -> (c: char)
    requires
        n < 16,
    ensures
        c == hex_digit(n),
{
    if n < 10 { (48u8 + n) as char } else { (87u8 + n) as char }
}

/// The digest of `data` in lower-case hexadecimal.
pub fn sha256_hex(data: &[u8]) -> (hex: String)
    ensures
        hex@ == spec_sha256_hex(data@),
{
    let digest = sha256_bytes(data);
    let mut hex = String::new();
    let mut i: usize = 0;
    while i < 32
        invariant
            i <= 32,
            digest@.len() == 32,
            hex@ == lower_hex(digest@.subrange(0, i as int)),
        decreases 32 - i,
    {
        let b = digest[i];
        crate::text::push_char(&mut hex, hex_digit_of(b / 16));
        crate::text::push_char(&mut hex, hex_digit_of(b % 16));
        proof {
            let next = digest@.subrange(0, i + 1);
            assert(next.drop_last() =~= digest@.subrange(0, i as int));
            assert(next.last() == b);
        }
        i = i + 1;
    }
    assert(digest@.subrange(0, 32) =~= digest@);
    hex
}

/// The outcome of reading a bounded prefix of one file under the login directory.
pub enum FileRead {
    /// The bytes read, at most one more than the size limit.
    Bytes(Vec<u8>),
    /// The read failed; `kind` is the debug name of the I/O error kind.
    Failed { not_found: bool, kind: Vec<u8> },
}

/// The size limit for a file that may take part in a cacheable scope.
pub open spec fn scope_file_limit() -> int { 262144 }

pub open spec fn read_part(name: Seq<u8>, read: FileRead) -> Seq<u8> {
    match read {
        FileRead::Bytes(b) => name + seq![1u8] + b@,
        FileRead::Failed { not_found, kind } => name + seq![0u8] + kind@,
    }
}

/// The digest input: the directory, then each file's name, a presence marker
/// and its bytes or error kind; a fixed marker without a directory.
pub open spec fn scope_material(home: Option<Seq<u8>>, auth: FileRead, config: FileRead) -> Seq<u8> {
    match home {
        None => "no-codex-home"@.map_values(|c: char| c as u8),
        Some(h) => h + read_part("auth.json"@.map_values(|c: char| c as u8), auth)
            + read_part("config.toml"@.map_values(|c: char| c as u8), config),
    }
}

/// Only an identifiable native login with readable, bounded files may own a
/// persistent cache; a missing configuration file is allowed.
pub open spec fn scope_cacheable(home: Option<Seq<u8>>, auth: FileRead, auth_identifiable: bool, config: FileRead) -> bool {
    home is Some
        && (match auth {
            FileRead::Bytes(b) => b@.len() <= scope_file_limit() && auth_identifiable,
            FileRead::Failed { .. } => false,
        })
        && (match config {
            FileRead::Bytes(b) => b@.len() <= scope_file_limit(),
            FileRead::Failed { not_found, .. } => not_found,
        })
}

fn ascii_bytes(text: &str) -> (b: Vec<u8>)
    requires
        vstd::string::is_ascii(text),
    ensures
        b@ == text@.map_values(|c: char| c as u8),
{
    broadcast use vstd::string::is_ascii_spec_bytes;
    let mut b: Vec<u8> = Vec::new();
    append(&mut b, text.as_bytes());
    assert(b@ =~= text@.map_values(|c: char| c as u8));
    b
}

pub open spec fn opt_bytes(home: &Option<Vec<u8>>) -> Option<Seq<u8>> {
    match home {
        Some(h) => Some(h@),
        None => None,
    }
}

fn append(out: &mut Vec<u8>, more: &[u8])
    ensures
        final(out)@ == old(out)@ + more@,
{
    out.extend_from_slice(more);
    assert(final(out)@ =~= old(out)@ + more@);
}

fn push_read_part(out: &mut Vec<u8>, name: &str, read: &FileRead)
    requires
        vstd::string::is_ascii(name),
    ensures
        final(out)@ == old(out)@ + read_part(name@.map_values(|c: char| c as u8), *read),
{
    let name_bytes = ascii_bytes(name);
    append(out, name_bytes.as_slice());
    match read {
        FileRead::Bytes(b) => {
            out.push(1u8);
            append(out, b.as_slice());
        },
        FileRead::Failed { kind, .. } => {
            out.push(0u8);
            append(out, kind.as_slice());
        },
    }
    assert(final(out)@ =~= old(out)@ + read_part(name@.map_values(|c: char| c as u8), *read));
}

/// The scope digest of a login directory and the two files read from it, and
/// whether that scope may own a persistent cache. `auth_identifiable` tells
/// whether the login file parsed to a personal access token or an OAuth login.
pub fn scope_keys(home: &Option<Vec<u8>>, auth: &FileRead, auth_identifiable: bool, config: &FileRead) -> (keys: (String, bool))
    ensures
        keys.0@ == spec_sha256_hex(scope_material(opt_bytes(home), *auth, *config)),
        keys.1 == scope_cacheable(opt_bytes(home), *auth, auth_identifiable, *config),
{
    let mut material: Vec<u8> = Vec::new();
    let mut cacheable = home.is_some();
    match home {
        None => {
            let marker = "no-codex-home";
            proof {
                reveal_strlit("no-codex-home");
            }
            material = ascii_bytes(marker);
        },
        Some(h) => {
            append(&mut material, h.as_slice());
            let auth_name = "auth.json";
            let config_name = "config.toml";
            proof {
                reveal_strlit("auth.json");
                reveal_strlit("config.toml");
            }
            push_read_part(&mut material, auth_name, auth);
            push_read_part(&mut material, config_name, config);
            match auth {
                FileRead::Bytes(b) => {
                    if b.len() > 256 * 1024 || !auth_identifiable {
                        cacheable = false;
                    }
                },
                FileRead::Failed { .. } => {
                    cacheable = false;
                },
            }
            match config {
                FileRead::Bytes(b) => {
                    if b.len() > 256 * 1024 {
                        cacheable = false;
                    }
                },
                FileRead::Failed { not_found, .. } => {
                    if !*not_found {
                        cacheable = false;
                    }
                },
            }
            assert(material@ =~= scope_material(opt_bytes(home), *auth, *config));
        },
    }
    let hex = sha256_hex(material.as_slice());
    (hex, cacheable)
}

/// The scope digest alone: the request guard that every outcome carries.
pub fn scope_key(home: &Option<Vec<u8>>, auth: &FileRead, auth_identifiable: bool, config: &FileRead) -> (key: String)
    ensures
        key@ == spec_sha256_hex(scope_material(opt_bytes(home), *auth, *config)),
{
    scope_keys(home, auth, auth_identifiable, config).0
}

/// The scope digest where the scope may own a persistent cache, else `None`.
pub fn cache_scope_key(home: &Option<Vec<u8>>, auth: &FileRead, auth_identifiable: bool, config: &FileRead) -> (key: Option<String>)
    ensures
        key is Some <==> scope_cacheable(opt_bytes(home), *auth, auth_identifiable, *config),
        key matches Some(k) ==> k@ == spec_sha256_hex(scope_material(opt_bytes(home), *auth, *config)),
{
    let (key, cacheable) = scope_keys(home, auth, auth_identifiable, config);
    if cacheable {
        Some(key)
    } else {
        None
    }
}

} // verus!
