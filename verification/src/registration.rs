//! What the Windows text service writes when it registers itself, and the
//! decisions of its COM entry points: the class id and its registry text,
//! the `InprocServer32` values, the bytes of a `REG_SZ` value, the answers of
//! `DllGetClassObject` and `IClassFactory::CreateInstance`, and the lines of
//! its log file.

use vstd::prelude::*;
use crate::text::{chars_of, decimal, push_char, push_chars, usize_to_decimal};

verus! {

/// The class id of the text service.
pub const CLSID_VALUE: u128 = 0x4fdca82d_e923_49bf_9e75_bb906b93b8bb;

/// The class id as the registry writes it (upper-case hex in braces).
pub const CLSID_TEXT: &'static str = "{4FDCA82D-E923-49BF-9E75-BB906B93B8BB}";

/// The language profile id.
pub const PROFILE_VALUE: u128 = 0x8119f8e0_cf81_423b_9189_c0d7374324b3;

/// Simplified Chinese (zh-CN).
pub const LANGID_ZH_CN: u16 = 0x0804;

/// The name shown in the system's list of input methods.
pub const SERVICE_DESCRIPTION: &'static str = "青简";

/// An upper-case hexadecimal digit (`0 <= d < 16`).
pub open spec fn hex_char(d: nat) -> char {
    if d < 10 {
        (d + 0x30) as char
    } else {
        (d - 10 + 0x41) as char
    }
}

/// The lowest `n` hexadecimal digits of `v`, most significant first.
pub open spec fn hex_digits(v: nat, n: nat) -> Seq<char>
    decreases n,
{
    if n == 0 {
        Seq::empty()
    } else {
        hex_digits(v / 16, (n - 1) as nat).push(hex_char(v % 16))
    }
}

/// The registry form of a GUID given as its 128-bit value:
/// `{XXXXXXXX-XXXX-XXXX-XXXX-XXXXXXXXXXXX}`.
pub open spec fn guid_text(v: u128) -> Seq<char> {
    let hex = hex_digits(v as nat, 32);
    seq!['{'] + hex.subrange(0, 8) + seq!['-'] + hex.subrange(8, 12) + seq!['-'] + hex.subrange(
        12,
        16,
    ) + seq!['-'] + hex.subrange(16, 20) + seq!['-'] + hex.subrange(20, 32) + seq!['}']
}

proof fn lemma_hex_len(v: nat, n: nat)
    ensures
        hex_digits(v, n).len() == n,
    decreases n,
{
    if n > 0 {
        lemma_hex_len(v / 16, (n - 1) as nat);
    }
}

fn hex_of(v: u128, n: usize) -> (digits: Vec<char>)
    ensures
        digits@ == hex_digits(v as nat, n as nat),
    decreases n,
{
    if n == 0 {
        return Vec::new();
    }
    let mut digits = hex_of(v / 16, n - 1);
    let d = (v % 16) as u8;
    let c = if d < 10 {
        (d + 0x30) as char
    } else {
        (d - 10 + 0x41) as char
    };
    digits.push(c);
    digits
}

/// The registry text of a GUID.
pub fn guid_string(v: u128) -> (text: String)
    ensures
        text@ == guid_text(v),
{
    let hex = hex_of(v, 32);
    proof {
        lemma_hex_len(v as nat, 32);
    }
    let mut text = String::new();
    push_char(&mut text, '{');
    let mut i: usize = 0;
    while i < 32
        invariant
            hex@ == hex_digits(v as nat, 32),
            hex@.len() == 32,
            i <= 32,
            text@ == (if i <= 8 {
                seq!['{'] + hex@.subrange(0, i as int)
            } else if i <= 12 {
                seq!['{'] + hex@.subrange(0, 8) + seq!['-'] + hex@.subrange(8, i as int)
            } else if i <= 16 {
                seq!['{'] + hex@.subrange(0, 8) + seq!['-'] + hex@.subrange(8, 12) + seq!['-']
                    + hex@.subrange(12, i as int)
            } else if i <= 20 {
                seq!['{'] + hex@.subrange(0, 8) + seq!['-'] + hex@.subrange(8, 12) + seq!['-']
                    + hex@.subrange(12, 16) + seq!['-'] + hex@.subrange(16, i as int)
            } else {
                seq!['{'] + hex@.subrange(0, 8) + seq!['-'] + hex@.subrange(8, 12) + seq!['-']
                    + hex@.subrange(12, 16) + seq!['-'] + hex@.subrange(16, 20) + seq!['-']
                    + hex@.subrange(20, i as int)
            }),
        decreases 32 - i,
    {
        if i == 8 || i == 12 || i == 16 || i == 20 {
            push_char(&mut text, '-');
        }
        push_char(&mut text, hex[i]);
        i = i + 1;
        assert(text@ =~= (if i <= 8 {
            seq!['{'] + hex@.subrange(0, i as int)
        } else if i <= 12 {
            seq!['{'] + hex@.subrange(0, 8) + seq!['-'] + hex@.subrange(8, i as int)
        } else if i <= 16 {
            seq!['{'] + hex@.subrange(0, 8) + seq!['-'] + hex@.subrange(8, 12) + seq!['-']
                + hex@.subrange(12, i as int)
        } else if i <= 20 {
            seq!['{'] + hex@.subrange(0, 8) + seq!['-'] + hex@.subrange(8, 12) + seq!['-']
                + hex@.subrange(12, 16) + seq!['-'] + hex@.subrange(16, i as int)
        } else {
            seq!['{'] + hex@.subrange(0, 8) + seq!['-'] + hex@.subrange(8, 12) + seq!['-']
                + hex@.subrange(12, 16) + seq!['-'] + hex@.subrange(16, 20) + seq!['-']
                + hex@.subrange(20, i as int)
        }));
    }
    push_char(&mut text, '}');
    assert(text@ =~= guid_text(v));
    text
}

/// The UTF-16 code units of a character: one below `U+10000`, else a
/// surrogate pair.
pub open spec fn utf16_of_char(c: char) -> Seq<u16> {
    let v = c as u32;
    if v < 0x10000 {
        seq![v as u16]
    } else {
        seq![(0xD800 + (v - 0x10000) / 0x400) as u16, (0xDC00 + (v - 0x10000) % 0x400) as u16]
    }
}

/// The UTF-16 code units of a text.
pub open spec fn utf16_of(s: Seq<char>) -> Seq<u16>
    decreases s.len(),
{
    if s.len() == 0 {
        Seq::empty()
    } else {
        utf16_of(s.drop_last()) + utf16_of_char(s.last())
    }
}

/// Code units as little-endian bytes, two per unit.
pub open spec fn le_bytes(units: Seq<u16>) -> Seq<u8>
    decreases units.len(),
{
    if units.len() == 0 {
        Seq::empty()
    } else {
        le_bytes(units.drop_last()) + seq![
            (units.last() % 256) as u8,
            (units.last() / 256) as u8,
        ]
    }
}

/// The UTF-16 text of `s` followed by a terminating zero, as the Windows
/// APIs that scan for the terminator read it.
pub fn wide_nul(s: &str) -> (wide: Vec<u16>)
    ensures
        wide@ == utf16_of(s@).push(0u16),
{
    let chars = chars_of(s);
    let mut wide: Vec<u16> = Vec::new();
    let mut i: usize = 0;
    while i < chars.len()
        invariant
            chars@ == s@,
            i <= chars@.len(),
            wide@ == utf16_of(chars@.take(i as int)),
        decreases chars.len() - i,
    {
        let c = chars[i];
        proof {
            assert(chars@.take(i + 1).drop_last() =~= chars@.take(i as int));
            assert(chars@.take(i + 1).last() == c);
        }
        let v = c as u32;
        let ghost before = wide@;
        if v < 0x10000 {
            wide.push(v as u16);
            assert(utf16_of_char(c) =~= seq![v as u16]);
        } else {
            let u = v - 0x10000;
            wide.push((0xD800 + u / 0x400) as u16);
            wide.push((0xDC00 + u % 0x400) as u16);
            assert(utf16_of_char(c) =~= seq![(0xD800 + u / 0x400) as u16, (0xDC00 + u % 0x400) as u16]);
        }
        assert(wide@ =~= before + utf16_of_char(c));
        assert(wide@ =~= utf16_of(chars@.take(i + 1)));
        i = i + 1;
    }
    assert(chars@.take(chars@.len() as int) =~= chars@);
    wide.push(0);
    wide
}

/// The bytes of a `REG_SZ` value: the UTF-16 text with its terminating zero,
/// little-endian.
pub fn reg_sz_bytes(s: &str) -> (bytes: Vec<u8>)
    ensures
        bytes@ == le_bytes(utf16_of(s@).push(0u16)),
{
    let wide = wide_nul(s);
    let mut bytes: Vec<u8> = Vec::new();
    let mut i: usize = 0;
    while i < wide.len()
        invariant
            i <= wide@.len(),
            bytes@ == le_bytes(wide@.take(i as int)),
        decreases wide.len() - i,
    {
        let unit = wide[i];
        proof {
            assert(wide@.take(i + 1).drop_last() =~= wide@.take(i as int));
        }
        bytes.push((unit % 256) as u8);
        bytes.push((unit / 256) as u8);
        assert(bytes@ =~= le_bytes(wide@.take(i + 1)));
        i = i + 1;
    }
    assert(wide@.take(wide@.len() as int) =~= wide@);
    bytes
}

/// A string value written under `HKEY_CLASSES_ROOT`; no name means the key's
/// default value.
pub struct RegistryValue {
    pub key: String,
    pub name: Option<String>,
    pub data: String,
}

/// `CLSID\<class id>`, the key registration creates and unregistration deletes.
pub fn clsid_key(clsid: &str) -> (key: String)
    ensures
        key@ == "CLSID\\"@ + clsid@,
{
    let mut key = String::from_str("CLSID\\");
    key.append(clsid);
    key
}

/// The values registration writes, in order: the service's name as the
/// class key's default, the DLL's path as `InprocServer32`'s default, and
/// its apartment threading model.
pub fn registration_values(clsid: &str, description: &str, module: &str) -> (values: Vec<
    RegistryValue,
>)
    ensures
        values@.len() == 3,
        values@[0].key@ == "CLSID\\"@ + clsid@,
        values@[0].name is None,
        values@[0].data@ == description@,
        values@[1].key@ == "CLSID\\"@ + clsid@ + "\\InprocServer32"@,
        values@[1].name is None,
        values@[1].data@ == module@,
        values@[2].key@ == "CLSID\\"@ + clsid@ + "\\InprocServer32"@,
        values@[2].name matches Some(n) && n@ == "ThreadingModel"@,
        values@[2].data@ == "Apartment"@,
{
    let base = clsid_key(clsid);
    let mut inproc = clsid_key(clsid);
    inproc.append("\\InprocServer32");
    let mut values: Vec<RegistryValue> = Vec::new();
    values.push(RegistryValue { key: base, name: None, data: String::from_str(description) });
    values.push(RegistryValue { key: inproc.clone(), name: None, data: String::from_str(module) });
    values.push(
        RegistryValue {
            key: inproc,
            name: Some(String::from_str("ThreadingModel")),
            data: String::from_str("Apartment"),
        },
    );
    values
}

/// The length of the module path `GetModuleFileNameW` wrote into a buffer of
/// `capacity` units: nothing written, or a full buffer (the path may be cut
/// short), is a failure.
pub fn module_path_len(written: u32, capacity: usize) -> (len: Option<usize>)
    ensures
        len == (if written == 0 || written as int >= capacity {
            None::<usize>
        } else {
            Some(written as usize)
        }),
{
    let written = written as usize;
    if written == 0 || written >= capacity {
        None
    } else {
        Some(written)
    }
}

/// The answer of `DllGetClassObject`.
#[derive(Clone, Copy, Debug, PartialEq, Eq, Structural)]
pub enum ClassObjectStep {
    /// A null pointer argument: `E_FAIL`.
    Fail,
    /// Another class: `CLASS_E_CLASSNOTAVAILABLE`.
    ClassNotAvailable,
    /// Hand out the class factory for the requested interface.
    Query,
}

pub fn class_object_step(null_argument: bool, clsid: u128) -> (step: ClassObjectStep)
    ensures
        step == (if null_argument {
            ClassObjectStep::Fail
        } else if clsid != CLSID_VALUE {
            ClassObjectStep::ClassNotAvailable
        } else {
            ClassObjectStep::Query
        }),
{
    if null_argument {
        ClassObjectStep::Fail
    } else if clsid != CLSID_VALUE {
        ClassObjectStep::ClassNotAvailable
    } else {
        ClassObjectStep::Query
    }
}

/// The answer of `IClassFactory::CreateInstance`.
#[derive(Clone, Copy, Debug, PartialEq, Eq, Structural)]
pub enum InstanceStep {
    /// Aggregation is not supported: `CLASS_E_NOAGGREGATION`.
    NoAggregation,
    /// A null pointer argument: `E_FAIL`.
    Fail,
    /// Create a text service and hand out the requested interface.
    Create,
}

pub open spec fn spec_instance_step(outer_present: bool, null_argument: bool) -> InstanceStep {
    if outer_present {
        InstanceStep::NoAggregation
    } else if null_argument {
        InstanceStep::Fail
    } else {
        InstanceStep::Create
    }
}

pub fn instance_step(outer_present: bool, null_argument: bool) -> (step: InstanceStep)
    ensures
        step == spec_instance_step(outer_present, null_argument),
{
    if outer_present {
        InstanceStep::NoAggregation
    } else if null_argument {
        InstanceStep::Fail
    } else {
        InstanceStep::Create
    }
}

/// `n` in decimal, padded with leading zeros to at least `width` digits.
pub open spec fn zero_padded(n: nat, width: nat) -> Seq<char> {
    let digits = decimal(n);
    if digits.len() < width {
        Seq::new((width - digits.len()) as nat, |i: int| '0') + digits
    } else {
        digits
    }
}

fn push_padded(text: &mut String, n: u16, width: usize)
    ensures
        final(text)@ == old(text)@ + zero_padded(n as nat, width as nat),
{
    let digits = usize_to_decimal(n as usize);
    let mut k: usize = digits.len();
    let ghost start = text@;
    while k < width
        invariant
            digits@ == decimal(n as nat),
            digits@.len() <= k <= width || (k == digits@.len() && k >= width),
            text@ == start + Seq::new((k - digits@.len()) as nat, |i: int| '0'),
        decreases width - k,
    {
        push_char(text, '0');
        k = k + 1;
        assert(text@ =~= start + Seq::new((k - digits@.len()) as nat, |i: int| '0'));
    }
    push_chars(text, &digits);
    assert(text@ =~= start + zero_padded(n as nat, width as nat));
}

/// A local time as the log writes it: `YYYY-MM-DD HH:MM:SS.mmm`.
pub open spec fn spec_timestamp(
    year: u16,
    month: u16,
    day: u16,
    hour: u16,
    minute: u16,
    second: u16,
    millis: u16,
) -> Seq<char> {
    zero_padded(year as nat, 4) + seq!['-'] + zero_padded(month as nat, 2) + seq!['-']
        + zero_padded(day as nat, 2) + seq![' '] + zero_padded(hour as nat, 2) + seq![':']
        + zero_padded(minute as nat, 2) + seq![':'] + zero_padded(second as nat, 2) + seq!['.']
        + zero_padded(millis as nat, 3)
}

pub fn timestamp(
    year: u16,
    month: u16,
    day: u16,
    hour: u16,
    minute: u16,
    second: u16,
    millis: u16,
) -> (text: String)
    ensures
        text@ == spec_timestamp(year, month, day, hour, minute, second, millis),
{
    let mut text = String::new();
    push_padded(&mut text, year, 4);
    push_char(&mut text, '-');
    push_padded(&mut text, month, 2);
    push_char(&mut text, '-');
    push_padded(&mut text, day, 2);
    push_char(&mut text, ' ');
    push_padded(&mut text, hour, 2);
    push_char(&mut text, ':');
    push_padded(&mut text, minute, 2);
    push_char(&mut text, ':');
    push_padded(&mut text, second, 2);
    push_char(&mut text, '.');
    push_padded(&mut text, millis, 3);
    assert(text@ =~= spec_timestamp(year, month, day, hour, minute, second, millis));
    text
}

/// A line of the log: `<time> [pid <pid>] <message>`.
pub fn log_line(time: &str, pid: u32, message: &str) -> (line: String)
    ensures
        line@ == time@ + " [pid "@ + decimal(pid as nat) + "] "@ + message@,
{
    let mut line = String::from_str(time);
    line.append(" [pid ");
    push_chars(&mut line, &usize_to_decimal(pid as usize));
    line.append("] ");
    line.append(message);
    line
}

} // verus!
