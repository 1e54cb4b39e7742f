//! The MQTT password on disk.
//!
//! It lives in a file of its own. On Windows the system protects it for the
//! current user, and the file holds `DPAPI:` and the protected bytes in base64. On
//! other platforms the file holds the password itself.

use crate::commands::custom::Platform;
use crate::text;
use crate::text::{chars_of, string_of, strip_prefix, sub_chars, trim_chars};
use vstd::prelude::*;
use vstd::string::*;

verus! {

// ---------------------------------------------------------------------------
// What base64 and the standard library are trusted for
// ---------------------------------------------------------------------------

/// The base64 text of bytes, in the standard alphabet and with padding.
pub uninterp spec fn base64_text(bytes: Seq<u8>) -> Seq<char>;

/// The bytes that a base64 text stands for, or why it stands for none.
pub uninterp spec fn base64_bytes(encoded: Seq<char>) -> Result<Seq<u8>, Seq<char>>;

/// `base64::Engine::encode` with the `STANDARD` engine. The text is named
/// `base64_text`; decoding it gives the bytes back.
#[verifier::external_body]
fn encode_base64(bytes: &[u8]) -> (r: String)
    ensures
        r@ == base64_text(bytes@),
        base64_bytes(r@) is Ok && base64_bytes(r@)->Ok_0 == bytes@,
{
    base64::Engine::encode(&base64::engine::general_purpose::STANDARD, bytes)
}

/// `base64::Engine::decode` with the `STANDARD` engine; the error is handed on as
/// its text. The result is named `base64_bytes`.
#[verifier::external_body]
fn decode_base64(encoded: &str) -> (r: Result<Vec<u8>, String>)
    ensures
        match r {
            Ok(b) => base64_bytes(encoded@) is Ok && base64_bytes(encoded@)->Ok_0 == b@,
            Err(m) => base64_bytes(encoded@) is Err && base64_bytes(encoded@)->Err_0 == m@,
        },
{
    base64::Engine::decode(&base64::engine::general_purpose::STANDARD, encoded)
        .map_err(|e| e.to_string())
}

/// What is wrong with bytes that are no UTF-8.
pub uninterp spec fn utf8_fault(bytes: Seq<u8>) -> Seq<char>;

/// `String::from_utf8` takes exactly the well-formed bytes; the error is handed on
/// as its text, which is named `utf8_fault`.
#[verifier::external_body]
fn string_from_utf8(bytes: Vec<u8>) -> (r: Result<String, String>)
    ensures
        match r {
            Ok(s) => vstd::utf8::valid_utf8(bytes@) && s@ == vstd::utf8::decode_utf8(bytes@),
            Err(m) => !vstd::utf8::valid_utf8(bytes@) && m@ == utf8_fault(bytes@),
        },
{
    String::from_utf8(bytes).map_err(|e| e.to_string())
}

// ---------------------------------------------------------------------------
// Errors
// ---------------------------------------------------------------------------

/// Why a stored credential cannot be read.
#[derive(Debug, Clone)]
pub struct DecryptError {
    pub message: String,
}

/// Marks a configuration that could not be loaded because its credential could
/// not be read.
#[derive(Debug, Clone, Copy)]
pub struct CredentialDecryptFailed;

impl CredentialDecryptFailed {
    /// The message.
    pub fn message(&self) -> (r: &'static str)
        ensures
            r@ == "MQTT credential decryption failed"@,
    {
        "MQTT credential decryption failed"
    }
}

// ---------------------------------------------------------------------------
// Storing
// ---------------------------------------------------------------------------

/// What is stored for a password. `protected` is what the system made of it: its
/// protected bytes, or why it failed. A password that cannot be protected is not
/// stored.
pub open spec fn stored_form(
    platform: Platform,
    plaintext: Seq<char>,
    protected: Result<Seq<u8>, Seq<char>>,
) -> Result<Seq<char>, Seq<char>> {
    if plaintext.len() == 0 {
        Ok(seq![])
    } else if platform == Platform::Windows {
        match protected {
            Ok(bytes) => Ok("DPAPI:"@ + base64_text(bytes)),
            Err(m) => Err("DPAPI encrypt failed (refusing to store plaintext): "@ + m),
        }
    } else {
        Ok(plaintext)
    }
}

/// The characters of a result.
pub open spec fn result_view(r: Result<String, String>) -> Result<Seq<char>, Seq<char>> {
    match r {
        Ok(s) => Ok(s@),
        Err(m) => Err(m@),
    }
}

/// The bytes of a result.
pub open spec fn bytes_view(r: Result<Vec<u8>, String>) -> Result<Seq<u8>, Seq<char>> {
    match r {
        Ok(b) => Ok(b@),
        Err(m) => Err(m@),
    }
}

/// What is stored for a password. `protected` is what the system made of it, and
/// counts on Windows only. What is stored there gives the protected bytes back.
pub fn encrypt(platform: Platform, plaintext: &str, protected: &Result<Vec<u8>, String>) -> (r:
    Result<String, String>)
    ensures
        result_view(r) == stored_form(platform, plaintext@, bytes_view(*protected)),
        platform == Platform::Windows && plaintext@.len() > 0 ==> (protected matches Ok(bytes) ==> (r
            matches Ok(s) && stored_bytes(platform, s@) == Ok::<Option<Seq<u8>>, Seq<char>>(
            Some(bytes@),
        ))),
{
    if plaintext.is_empty() {
        return Ok(String::new());
    }
    if platform == Platform::Unix {
        return Ok(plaintext.to_string());
    }
    match protected {
        Ok(bytes) => {
            let encoded = encode_base64(bytes);
            let mut s = "DPAPI:".to_string();
            s.append(&encoded);
            proof {
                reveal_strlit("DPAPI:");
                assert(s@.take("DPAPI:"@.len() as int) =~= "DPAPI:"@);
                assert(s@.skip("DPAPI:"@.len() as int) =~= encoded@);
                assert(text::strip_prefix_spec(s@, "DPAPI:"@) == Some(encoded@));
            }
            Ok(s)
        },
        Err(m) => {
            let mut s = "DPAPI encrypt failed (refusing to store plaintext): ".to_string();
            s.append(m);
            Err(s)
        },
    }
}

/// What is done with the file.
#[derive(Debug, Clone)]
pub enum SaveStep {
    /// Remove it, if it is there.
    Remove,
    /// Write this, readable by its owner only.
    Write(String),
}

/// What is done with the file for a password: an empty one removes it.
pub fn save_to_file(
    platform: Platform,
    plaintext: &str,
    protected: &Result<Vec<u8>, String>,
) -> (r: Result<SaveStep, String>)
    ensures
        match r {
            Ok(SaveStep::Remove) => plaintext@.len() == 0,
            Ok(SaveStep::Write(s)) => plaintext@.len() > 0 && stored_form(
                platform,
                plaintext@,
                bytes_view(*protected),
            ) == Ok::<Seq<char>, Seq<char>>(s@),
            Err(m) => plaintext@.len() > 0 && stored_form(
                platform,
                plaintext@,
                bytes_view(*protected),
            ) == Err::<Seq<char>, Seq<char>>(m@),
        },
{
    if plaintext.is_empty() {
        return Ok(SaveStep::Remove);
    }
    match encrypt(platform, plaintext, protected) {
        Ok(s) => Ok(SaveStep::Write(s)),
        Err(m) => Err(m),
    }
}

// ---------------------------------------------------------------------------
// Reading
// ---------------------------------------------------------------------------

/// The bytes that the system has to unprotect: none where the stored text is the
/// password itself.
pub open spec fn stored_bytes(platform: Platform, stored: Seq<char>) -> Result<
    Option<Seq<u8>>,
    Seq<char>,
> {
    if platform == Platform::Windows {
        match text::strip_prefix_spec(stored, "DPAPI:"@) {
            Some(encoded) => match base64_bytes(encoded) {
                Ok(bytes) => Ok(Some(bytes)),
                Err(m) => Err("Invalid base64 in DPAPI credential: "@ + m),
            },
            None => Ok(None),
        }
    } else {
        Ok(None)
    }
}

/// The password. `unprotected` is what the system made of the stored bytes:
/// nothing where it failed.
pub open spec fn password(
    platform: Platform,
    stored: Seq<char>,
    unprotected: Option<Seq<u8>>,
) -> Result<Seq<char>, Seq<char>> {
    match stored_bytes(platform, stored) {
        Err(m) => Err(m),
        Ok(None) => Ok(stored),
        Ok(Some(_)) => match unprotected {
            None => Err(
                "DPAPI decryption failed - password may have been encrypted by a different Windows user or machine. Run with --reset-password to re-enter."@,
            ),
            Some(bytes) => if vstd::utf8::valid_utf8(bytes) {
                Ok(vstd::utf8::decode_utf8(bytes))
            } else {
                Err("Decrypted credential is not valid UTF-8: "@ + utf8_fault(bytes))
            },
        },
    }
}

/// The bytes that the system has to unprotect, if any.
pub fn protected_bytes(platform: Platform, stored: &str) -> (r: Result<
    Option<Vec<u8>>,
    DecryptError,
>)
    ensures
        match r {
            Ok(Some(b)) => stored_bytes(platform, stored@) == Ok::<Option<Seq<u8>>, Seq<char>>(
                Some(b@),
            ),
            Ok(None) => stored_bytes(platform, stored@) == Ok::<Option<Seq<u8>>, Seq<char>>(None),
            Err(e) => stored_bytes(platform, stored@) == Err::<Option<Seq<u8>>, Seq<char>>(
                e.message@,
            ),
        },
{
    if platform == Platform::Unix {
        return Ok(None);
    }
    match strip_prefix(&chars_of(stored), "DPAPI:") {
        Some(encoded) => match decode_base64(&string_of(&encoded)) {
            Ok(bytes) => Ok(Some(bytes)),
            Err(m) => {
                let mut message = "Invalid base64 in DPAPI credential: ".to_string();
                message.append(&m);
                Err(DecryptError { message })
            },
        },
        None => Ok(None),
    }
}

/// The password behind a stored text. `unprotected` is what the system made of
/// `protected_bytes`, and counts only where there are any.
pub fn decrypt(platform: Platform, stored: &str, unprotected: Option<Vec<u8>>) -> (r: Result<
    String,
    DecryptError,
>)
    ensures
        match r {
            Ok(s) => password(
                platform,
                stored@,
                match unprotected {
                    Some(b) => Some(b@),
                    None => None,
                },
            ) == Ok::<Seq<char>, Seq<char>>(s@),
            Err(e) => password(
                platform,
                stored@,
                match unprotected {
                    Some(b) => Some(b@),
                    None => None,
                },
            ) == Err::<Seq<char>, Seq<char>>(e.message@),
        },
{
    match protected_bytes(platform, stored) {
        Err(e) => Err(e),
        Ok(None) => Ok(stored.to_string()),
        Ok(Some(_)) => match unprotected {
            None => Err(
                DecryptError {
                    message: "DPAPI decryption failed - password may have been encrypted by a different Windows user or machine. Run with --reset-password to re-enter.".to_string(),
                },
            ),
            Some(bytes) => match string_from_utf8(bytes) {
                Ok(s) => Ok(s),
                Err(m) => {
                    let mut message = "Decrypted credential is not valid UTF-8: ".to_string();
                    message.append(&m);
                    Err(DecryptError { message })
                },
            },
        },
    }
}

/// A password comes back: where the system unprotects what it protected, what was
/// stored for a password is read as that password. On Unix this holds of every
/// password, and on Windows of every password whose stored text gives back the
/// protected bytes, as `encrypt` promises.
pub proof fn law_password_comes_back(
    platform: Platform,
    plaintext: Seq<char>,
    protected: Seq<u8>,
    stored: Seq<char>,
)
    requires
        plaintext.len() > 0,
        stored_form(platform, plaintext, Ok(protected)) == Ok::<Seq<char>, Seq<char>>(stored),
        platform == Platform::Windows ==> stored_bytes(platform, stored) == Ok::<
            Option<Seq<u8>>,
            Seq<char>,
        >(Some(protected)),
    ensures
        password(platform, stored, Some(vstd::utf8::encode_utf8(plaintext))) == Ok::<
            Seq<char>,
            Seq<char>,
        >(plaintext),
{
    vstd::utf8::encode_utf8_valid_utf8(plaintext);
    vstd::utf8::encode_utf8_decode_utf8(plaintext);
}

/// `s` without the line feeds and carriage returns at its end.
pub open spec fn without_line_end(s: Seq<char>) -> Seq<char>
    decreases s.len(),
{
    if s.len() > 0 && (s.last() == '\n' || s.last() == '\r') {
        without_line_end(s.drop_last())
    } else {
        s
    }
}

/// The stored text of a file: nothing where there is no file. On Windows white
/// space around it does not count; elsewhere it belongs to the password, and only
/// the end of the line is taken off.
pub fn stored_text(platform: Platform, contents: Option<&str>) -> (r: String)
    ensures
        r@ == (match contents {
            None => seq![],
            Some(c) => if platform == Platform::Windows {
                text::trim(c@)
            } else {
                without_line_end(c@)
            },
        }),
{
    match contents {
        None => String::new(),
        Some(c) => {
            let all = chars_of(c);
            if platform == Platform::Windows {
                return string_of(&trim_chars(&all));
            }
            let mut n: usize = all.len();
            proof {
                assert(all@.take(n as int) =~= all@);
            }
            while n > 0 && (all[n - 1] == '\n' || all[n - 1] == '\r')
                invariant
                    n <= all.len(),
                    without_line_end(all@) == without_line_end(all@.take(n as int)),
                decreases n,
            {
                proof {
                    assert(all@.take(n as int).drop_last() =~= all@.take(n - 1));
                }
                n -= 1;
            }
            let front = sub_chars(&all, 0, n);
            proof {
                assert(front@ =~= all@.take(n as int));
            }
            string_of(&front)
        },
    }
}

/// The directory part of a path, with its separator.
pub open spec fn directory(path: Seq<char>) -> Seq<char>
    decreases path.len(),
{
    if path.len() == 0 || path.last() == '/' || path.last() == '\\' {
        path
    } else {
        directory(path.drop_last())
    }
}

/// The path of the credential file: beside the configuration file.
pub fn credential_path(config_path: &str) -> (r: String)
    ensures
        r@ == directory(config_path@) + "mqtt_credential"@,
{
    let all = chars_of(config_path);
    let mut n: usize = all.len();
    proof {
        assert(all@.take(n as int) =~= all@);
    }
    while n > 0 && all[n - 1] != '/' && all[n - 1] != '\\'
        invariant
            n <= all.len(),
            directory(all@) == directory(all@.take(n as int)),
        decreases n,
    {
        proof {
            assert(all@.take(n as int).drop_last() =~= all@.take(n - 1));
        }
        n -= 1;
    }
    let dir = sub_chars(&all, 0, n);
    proof {
        assert(dir@ =~= all@.take(n as int));
    }
    let mut path = string_of(&dir);
    path.append("mqtt_credential");
    path
}

// ---------------------------------------------------------------------------
// Laws
// ---------------------------------------------------------------------------

/// On Windows a password is never stored as it is: what is stored is the protected form
/// in base64, marked as such, or nothing where it cannot be protected. Elsewhere the
/// password itself is stored.
pub proof fn law_what_is_stored(plaintext: Seq<char>, bytes: Seq<u8>, fault: Seq<char>)
    requires
        plaintext.len() > 0,
    ensures
        stored_form(Platform::Windows, plaintext, Ok(bytes)) == Ok::<Seq<char>, Seq<char>>(
            "DPAPI:"@ + base64_text(bytes),
        ),
        stored_form(Platform::Windows, plaintext, Err(fault)) == Err::<Seq<char>, Seq<char>>(
            "DPAPI encrypt failed (refusing to store plaintext): "@ + fault,
        ),
        stored_form(Platform::Unix, plaintext, Ok(bytes)) == Ok::<Seq<char>, Seq<char>>(plaintext),
        stored_form(Platform::Unix, plaintext, Err(fault)) == Ok::<Seq<char>, Seq<char>>(plaintext),
{
}

/// On Windows a marked text is a protected password: its bytes are what the system has to
/// unprotect, and what comes out is the password. Without the mark, and on every other
/// platform, the text is the password.
pub proof fn law_what_is_read(
    encoded: Seq<char>,
    plain: Seq<char>,
    unprotected: Option<Seq<u8>>,
)
    requires
        !text::has_prefix(plain, "DPAPI:"@),
    ensures
        ({
            let stored = "DPAPI:"@ + encoded;
            &&& password(Platform::Unix, stored, unprotected) == Ok::<Seq<char>, Seq<char>>(stored)
            &&& password(Platform::Unix, plain, unprotected) == Ok::<Seq<char>, Seq<char>>(plain)
            &&& password(Platform::Windows, plain, unprotected) == Ok::<Seq<char>, Seq<char>>(plain)
            &&& match base64_bytes(encoded) {
                Err(m) => {
                    &&& stored_bytes(Platform::Windows, stored) == Err::<
                        Option<Seq<u8>>,
                        Seq<char>,
                    >("Invalid base64 in DPAPI credential: "@ + m)
                    &&& password(Platform::Windows, stored, unprotected) == Err::<
                        Seq<char>,
                        Seq<char>,
                    >("Invalid base64 in DPAPI credential: "@ + m)
                },
                Ok(bytes) => {
                    &&& stored_bytes(Platform::Windows, stored) == Ok::<
                        Option<Seq<u8>>,
                        Seq<char>,
                    >(Some(bytes))
                    &&& unprotected is None ==> password(Platform::Windows, stored, unprotected)
                        == Err::<Seq<char>, Seq<char>>(
                        "DPAPI decryption failed - password may have been encrypted by a different Windows user or machine. Run with --reset-password to re-enter."@,
                    )
                    &&& unprotected matches Some(b) ==> if vstd::utf8::valid_utf8(b) {
                        password(Platform::Windows, stored, unprotected) == Ok::<
                            Seq<char>,
                            Seq<char>,
                        >(vstd::utf8::decode_utf8(b))
                    } else {
                        password(Platform::Windows, stored, unprotected) == Err::<
                            Seq<char>,
                            Seq<char>,
                        >("Decrypted credential is not valid UTF-8: "@ + utf8_fault(b))
                    }
                },
            }
        }),
{
    let mark = "DPAPI:"@;
    let stored = mark + encoded;
    assert(stored.take(mark.len() as int) =~= mark);
    assert(stored.skip(mark.len() as int) =~= encoded);
}

/// Only the ends of lines are taken off behind a password, and nothing else of it.
pub proof fn law_line_ends_are_taken_off(s: Seq<char>)
    ensures
        without_line_end(s.push('\n')) == without_line_end(s),
        without_line_end(s.push('\r')) == without_line_end(s),
        s.len() == 0 || (s.last() != '\n' && s.last() != '\r') ==> without_line_end(s) == s,
{
    assert(s.push('\n').drop_last() =~= s);
    assert(s.push('\r').drop_last() =~= s);
}

/// The directory of a path ends at its last separator.
pub proof fn law_directory(dir: Seq<char>, separator: char, name: Seq<char>)
    requires
        separator == '/' || separator == '\\',
        !name.contains('/'),
        !name.contains('\\'),
    ensures
        directory(dir + seq![separator] + name) == dir + seq![separator],
        directory(name).len() == 0,
    decreases name.len(),
{
    let all = dir + seq![separator] + name;
    if name.len() == 0 {
        assert(all =~= dir + seq![separator]);
    } else {
        let rest = name.drop_last();
        assert(name.contains(name[name.len() - 1]));
        assert(all.last() == name[name.len() - 1]);
        if rest.contains('/') {
            let i = choose|i: int| 0 <= i < rest.len() && rest[i] == '/';
            assert(name[i] == '/');
        }
        if rest.contains('\\') {
            let i = choose|i: int| 0 <= i < rest.len() && rest[i] == '\\';
            assert(name[i] == '\\');
        }
        law_directory(dir, separator, rest);
        assert(all.drop_last() =~= dir + seq![separator] + rest);
    }
}

} // verus!
