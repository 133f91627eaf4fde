//! Firmware images: uploads, local builds, checksums and the checks on a download's id.
use vstd::prelude::*;
use crate::digest::{hex_encode, hex_lower, sha256, sha256_spec};
use crate::text::{chars_of, concat_parts, contains_seq, decimal, push_decimal, push_str, str_contains, str_eq, string_of};

verus! {

/// The checksum stored with a firmware image: its SHA-256 digest in lowercase hexadecimal.
pub fn firmware_checksum(data: &[u8]) -> (checksum: String)
    ensures
        checksum@ == hex_lower(sha256_spec(data@)),
{
    let digest = sha256(data);
    hex_encode(digest.as_slice())
}

/// Checks an upload: it must carry a file, then a version.
pub fn check_upload(has_file: bool, version: &str) -> (r: Result<(), String>)
    ensures
        !has_file ==> (r matches Err(m) && m@ == "No file uploaded"@),
        has_file && version@.len() == 0 ==> (r matches Err(m) && m@ == "Version is required"@),
        r is Ok <==> has_file && version@.len() > 0,
{
    if !has_file {
        return Err("No file uploaded".to_string());
    }
    if chars_of(version).len() == 0 {
        return Err("Version is required".to_string());
    }
    Ok(())
}

/// The name an uploaded image is stored under: the file's own name, else `firmware.bin`.
pub fn upload_filename(name: Option<String>) -> (r: String)
    ensures
        r@ == match name {
            Some(n) => n@,
            None => "firmware.bin"@,
        },
{
    match name {
        Some(n) => n,
        None => "firmware.bin".to_string(),
    }
}

/// Whether a firmware id may name a file in the firmware directory: no slash, no backslash,
/// no `..`.
pub open spec fn safe_firmware_id(id: Seq<char>) -> bool {
    !id.contains('/') && !id.contains('\\') && !contains_seq(id, ".."@)
}

/// Checks the id of a firmware download.
pub fn check_firmware_id(id: &str) -> (r: Result<(), String>)
    ensures
        r is Ok <==> safe_firmware_id(id@),
        r matches Err(m) ==> m@ == "Invalid firmware id"@,
{
    let slash = str_contains(id, "/");
    let backslash = str_contains(id, "\\");
    let dots = str_contains(id, "..");
    proof {
        reveal_strlit("/");
        reveal_strlit("\\");
        assert("/"@ =~= seq!['/']);
        assert("\\"@ =~= seq!['\\']);
        lemma_contains_one(id@, '/');
        lemma_contains_one(id@, '\\');
    }
    if slash || backslash || dots {
        Err("Invalid firmware id".to_string())
    } else {
        Ok(())
    }
}

/// A one-character pattern occurs exactly where the character does.
proof fn lemma_contains_one(s: Seq<char>, c: char)
    ensures
        contains_seq(s, seq![c]) <==> s.contains(c),
{
    if s.contains(c) {
        let i = choose|i: int| 0 <= i < s.len() && s[i] == c;
        assert(s.subrange(i, i + 1) =~= seq![c]);
        assert(0 <= i && i + seq![c].len() <= s.len() && s.subrange(i, i + seq![c].len()) == seq![c]);
    }
    if contains_seq(s, seq![c]) {
        let i = choose|i: int| 0 <= i && i + seq![c].len() <= s.len() && #[trigger] s.subrange(i, i + seq![c].len()) == seq![c];
        assert(s.subrange(i, i + 1)[0] == s[i]);
    }
}

/// The build environments the firmware can be built for.
pub open spec fn is_build_environment(env: Seq<char>) -> bool {
    env == "esp32"@ || env == "esp32-4848s040c"@
}

/// Checks the environment of a build request.
pub fn check_environment(env: &str) -> (r: Result<(), String>)
    ensures
        r is Ok <==> is_build_environment(env@),
        r matches Err(m) ==> m@ == "Invalid environment '"@ + env@ + "'. Must be 'esp32' or 'esp32-4848s040c'"@,
{
    if str_eq(env, "esp32") || str_eq(env, "esp32-4848s040c") {
        Ok(())
    } else {
        let m = concat_parts(&["Invalid environment '", env, "'. Must be 'esp32' or 'esp32-4848s040c'"]);
        proof {
            reveal_with_fuel(crate::text::concat_all, 4);
        }
        Err(string_of(m.as_slice()))
    }
}

/// The device type a build environment targets.
pub open spec fn device_type_spec(env: Seq<char>) -> Seq<char> {
    if env == "esp32-4848s040c"@ {
        "esp32_4848s040c_lcd"@
    } else if env == "esp32"@ {
        "esp32_oled"@
    } else {
        "unknown"@
    }
}

/// The device type a build environment targets.
pub fn env_to_device_type(env: &str) -> (t: &'static str)
    ensures
        t@ == device_type_spec(env@),
{
    if str_eq(env, "esp32-4848s040c") {
        "esp32_4848s040c_lcd"
    } else if str_eq(env, "esp32") {
        "esp32_oled"
    } else {
        "unknown"
    }
}

/// The file name of a built image: `firmware-{env}-{version}.bin`.
pub fn build_filename(env: &str, version: &str) -> (name: String)
    ensures
        name@ == "firmware-"@ + env@ + "-"@ + version@ + ".bin"@,
{
    let v = concat_parts(&["firmware-", env, "-", version, ".bin"]);
    proof {
        reveal_with_fuel(crate::text::concat_all, 6);
    }
    string_of(v.as_slice())
}

/// The message of a successful build: `Built {env} firmware ({size} bytes)`.
pub fn build_message(env: &str, size_bytes: u64) -> (m: String)
    ensures
        m@ == "Built "@ + env@ + " firmware ("@ + decimal(size_bytes as nat) + " bytes)"@,
{
    let mut v = concat_parts(&["Built ", env, " firmware ("]);
    proof {
        reveal_with_fuel(crate::text::concat_all, 4);
    }
    push_decimal(&mut v, size_bytes);
    push_str(&mut v, " bytes)");
    string_of(v.as_slice())
}

} // verus!
