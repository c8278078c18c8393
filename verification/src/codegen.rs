//! The Rust source text that the command-line generator writes for a folder
//! of assets: one `static` byte array per file and a `get` function that
//! maps each file path to its array.

use vstd::prelude::*;
use crate::text::{chars_of, string_from_chars};

verus! {

/// A file to embed: the path under which `get` finds it and its contents.
pub struct AssetFile {
    pub path: String,
    pub data: Vec<u8>,
}

/// The decimal digit for `d` (below ten).
pub open spec fn digit(d: nat) -> char {
    if d == 0 {
        '0'
    } else if d == 1 {
        '1'
    } else if d == 2 {
        '2'
    } else if d == 3 {
        '3'
    } else if d == 4 {
        '4'
    } else if d == 5 {
        '5'
    } else if d == 6 {
        '6'
    } else if d == 7 {
        '7'
    } else if d == 8 {
        '8'
    } else {
        '9'
    }
}

/// The decimal text of `n`, without leading zeros.
pub open spec fn decimal(n: nat) -> Seq<char>
    decreases n,
{
    if n < 10 {
        seq![digit(n)]
    } else {
        decimal(n / 10).push(digit(n % 10))
    }
}

/// The number that a text of decimal digits denotes, read from the left.
pub open spec fn digits_value(s: Seq<char>) -> int
    decreases s.len(),
{
    if s.len() == 0 {
        0
    } else {
        digits_value(s.drop_last()) * 10 + (s.last() as int - '0' as int)
    }
}

/// Every character is a decimal digit.
pub open spec fn all_digits(s: Seq<char>) -> bool {
    forall|i: int| 0 <= i < s.len() ==> '0' <= #[trigger] s[i] <= '9'
}

/// A digit character stands for its value.
proof fn lemma_digit_value(d: nat)
    requires
        d < 10,
    ensures
        digit(d) as int - '0' as int == d,
        '0' <= digit(d) <= '9',
{
    assert('0' as int == 48 && '1' as int == 49 && '2' as int == 50 && '3' as int == 51 && '4' as int == 52);
    assert('5' as int == 53 && '6' as int == 54 && '7' as int == 55 && '8' as int == 56 && '9' as int == 57);
}

/// The decimal text of a number is a non-empty run of digits that denotes
/// that number.
pub proof fn lemma_decimal_denotes(n: nat)
    ensures
        decimal(n).len() >= 1,
        all_digits(decimal(n)),
        digits_value(decimal(n)) == n,
    decreases n,
{
    if n >= 10 {
        lemma_decimal_denotes(n / 10);
        let d = decimal(n);
        assert(d.drop_last() =~= decimal(n / 10));
        assert(d.last() == digit(n % 10));
        lemma_digit_value(n % 10);
        assert((n / 10) * 10 + n % 10 == n) by (nonlinear_arith);
        assert(digits_value(d) == digits_value(d.drop_last()) * 10 + (d.last() as int - '0' as int));
        assert(digits_value(d.drop_last()) == n / 10);
        assert forall|i: int| 0 <= i < d.len() implies '0' <= #[trigger] d[i] <= '9' by {
            if i < d.len() - 1 {
                assert(d[i] == decimal(n / 10)[i]);
            }
        }
    } else {
        let d = decimal(n);
        assert(d.drop_last() =~= Seq::<char>::empty());
        lemma_digit_value(n);
        assert(digits_value(d) == digits_value(d.drop_last()) * 10 + (d.last() as int - '0' as int));
    }
}

/// The bytes written as decimal numbers separated by `", "`.
pub open spec fn byte_items(bytes: Seq<u8>) -> Seq<char>
    decreases bytes.len(),
{
    if bytes.len() == 0 {
        seq![]
    } else if bytes.len() == 1 {
        decimal(bytes[0] as nat)
    } else {
        byte_items(bytes.drop_last()) + ", "@ + decimal(bytes.last() as nat)
    }
}

/// The debug text of a byte vector, as `{:?}` writes it: `[1, 2, 3]`.
pub open spec fn byte_list(bytes: Seq<u8>) -> Seq<char> {
    "["@ + byte_items(bytes) + "]"@
}

/// The identifier of a file's array: its path with every `.`, `/` and `-`
/// replaced by `_`.
pub open spec fn asset_name(path: Seq<char>) -> Seq<char> {
    path.map_values(|c: char| if c == '.' || c == '/' || c == '-' { '_' } else { c })
}

/// The `match` arm of `get` for a file: `    "<path>" => Result::Ok(&<name>),`.
pub open spec fn match_arm(path: Seq<char>) -> Seq<char> {
    "    \""@ + path + "\""@ + " => Result::Ok(&"@ + asset_name(path) + "),\n"@
}

/// The `static` item that holds a file's bytes:
/// `pub static <name>: [u8; <len>] = [<bytes>];`.
pub open spec fn static_item(path: Seq<char>, data: Seq<u8>) -> Seq<char> {
    "pub static "@ + asset_name(path) + ": [u8; "@ + decimal(data.len()) + "] = "@ + byte_list(data)
        + ";\n"@
}

/// The array length that a `static` item declares, between `: [u8; ` and
/// `] = `, is a run of decimal digits that denotes the number of bytes of
/// the file, whatever that number.
pub proof fn lemma_static_item_declares_length(path: Seq<char>, data: Seq<u8>)
    ensures
        ({
            let s = static_item(path, data);
            let head = "pub static "@ + asset_name(path) + ": [u8; "@;
            let tail = "] = "@ + byte_list(data) + ";\n"@;
            let declared = s.subrange(head.len() as int, s.len() - tail.len());
            &&& s.take(head.len() as int) == head
            &&& s.skip(s.len() - tail.len()) == tail
            &&& all_digits(declared)
            &&& digits_value(declared) == data.len()
        }),
{
    let s = static_item(path, data);
    let head = "pub static "@ + asset_name(path) + ": [u8; "@;
    let tail = "] = "@ + byte_list(data) + ";\n"@;
    let d = decimal(data.len());
    assert(s =~= head + d + tail);
    assert(s.take(head.len() as int) =~= head);
    assert(s.skip(s.len() - tail.len()) =~= tail);
    assert(s.subrange(head.len() as int, s.len() - tail.len()) =~= d);
    lemma_decimal_denotes(data.len());
}

/// The lines that open the generated file.
pub open spec fn source_header() -> Seq<char> {
    "#![allow(dead_code)]"@ + "\n"@ + "#![allow(non_upper_case_globals)]"@ + "\n"@
}

/// The text that opens the generated `get` function.
pub open spec fn get_fn_open() -> Seq<char> {
    "\npub fn get(name: &str) -> Result<&[u8], &str> {\n  match name {\n"@
}

/// The text that closes the generated `get` function, after its last arm.
pub open spec fn get_fn_close() -> Seq<char> {
    "    _=> Result::Err(\"File Not Found\")\n"@ + "  }\n}\n"@
}

/// The `static` items of the files, in order.
pub open spec fn static_items(files: Seq<(Seq<char>, Seq<u8>)>) -> Seq<char>
    decreases files.len(),
{
    if files.len() == 0 {
        seq![]
    } else {
        static_items(files.drop_last()) + static_item(files.last().0, files.last().1)
    }
}

/// The `match` arms of the files, in order.
pub open spec fn match_arms(files: Seq<(Seq<char>, Seq<u8>)>) -> Seq<char>
    decreases files.len(),
{
    if files.len() == 0 {
        seq![]
    } else {
        match_arms(files.drop_last()) + match_arm(files.last().0)
    }
}

/// The whole generated source: the header and the `static` items, then the
/// `get` function with one arm per file and a final arm for any other name.
pub open spec fn generated_source(files: Seq<(Seq<char>, Seq<u8>)>) -> Seq<char> {
    source_header() + static_items(files) + get_fn_open() + match_arms(files) + get_fn_close()
}

/// The views of the files to embed.
pub open spec fn asset_views(files: Seq<AssetFile>) -> Seq<(Seq<char>, Seq<u8>)> {
    files.map_values(|f: AssetFile| (f.path@, f.data@))
}

/// Appends the characters of `s`.
fn append_str(out: &mut Vec<char>, s: &str)
    ensures
        final(out)@ == old(out)@ + s@,
{
    let chars = chars_of(s);
    append_chars(out, &chars);
}

/// Appends the characters of `chars`.
fn append_chars(out: &mut Vec<char>, chars: &Vec<char>)
    ensures
        final(out)@ == old(out)@ + chars@,
{
    let ghost start = out@;
    let mut i: usize = 0;
    while i < chars.len()
        invariant
            i <= chars@.len(),
            out@ == start + chars@.take(i as int),
        decreases chars@.len() - i,
    {
        out.push(chars[i]);
        i = i + 1;
        assert(out@ =~= start + chars@.take(i as int));
    }
    assert(chars@.take(i as int) =~= chars@);
}

/// The decimal digit for `d`.
fn digit_char(d: u64) -> (r: char)
    requires
        d < 10,
    ensures
        r == digit(d as nat),
{
    if d == 0 {
        '0'
    } else if d == 1 {
        '1'
    } else if d == 2 {
        '2'
    } else if d == 3 {
        '3'
    } else if d == 4 {
        '4'
    } else if d == 5 {
        '5'
    } else if d == 6 {
        '6'
    } else if d == 7 {
        '7'
    } else if d == 8 {
        '8'
    } else {
        '9'
    }
}

/// Appends the decimal text of `n`.
fn append_decimal(out: &mut Vec<char>, n: u64)
    ensures
        final(out)@ == old(out)@ + decimal(n as nat),
    decreases n,
{
    if n >= 10 {
        append_decimal(out, n / 10);
    }
    out.push(digit_char(n % 10));
    proof {
        if n >= 10 {
            assert(decimal(n as nat) == decimal((n / 10) as nat).push(digit((n % 10) as nat)));
        }
    }
    assert(out@ =~= old(out)@ + decimal(n as nat));
}

/// The decimal text of a number, as `{}` writes it.
pub fn decimal_string(n: u64) -> (r: String)
    ensures
        r@ == decimal(n as nat),
{
    let mut out: Vec<char> = Vec::new();
    append_decimal(&mut out, n);
    assert(out@ =~= decimal(n as nat));
    string_from_chars(&out)
}

/// Appends the debug text of the bytes, `[1, 2, 3]`.
fn append_byte_list(out: &mut Vec<char>, bytes: &Vec<u8>)
    ensures
        final(out)@ == old(out)@ + byte_list(bytes@),
{
    let ghost start = out@;
    append_str(out, "[");
    let mut i: usize = 0;
    while i < bytes.len()
        invariant
            i <= bytes@.len(),
            out@ == start + "["@ + byte_items(bytes@.take(i as int)),
        decreases bytes@.len() - i,
    {
        let ghost before = out@;
        if i > 0 {
            append_str(out, ", ");
        }
        append_decimal(out, bytes[i] as u64);
        proof {
            let t = bytes@.take(i + 1);
            assert(t.drop_last() =~= bytes@.take(i as int));
            assert(t.last() == bytes@[i as int]);
            if i == 0 {
                assert(byte_items(bytes@.take(0)) == Seq::<char>::empty());
                assert(out@ =~= start + "["@ + byte_items(t));
            } else {
                assert(out@ =~= start + "["@ + byte_items(t));
            }
        }
        i = i + 1;
    }
    assert(bytes@.take(i as int) =~= bytes@);
    append_str(out, "]");
    assert(out@ =~= start + byte_list(bytes@));
}

/// Appends the array identifier for a path: `.`, `/` and `-` become `_`.
fn append_asset_name(out: &mut Vec<char>, path: &Vec<char>)
    ensures
        final(out)@ == old(out)@ + asset_name(path@),
{
    let ghost start = out@;
    let mut i: usize = 0;
    while i < path.len()
        invariant
            i <= path@.len(),
            out@ == start + asset_name(path@.take(i as int)),
        decreases path@.len() - i,
    {
        let c = path[i];
        out.push(if c == '.' || c == '/' || c == '-' { '_' } else { c });
        i = i + 1;
        assert(out@ =~= start + asset_name(path@.take(i as int)));
    }
    assert(path@.take(i as int) =~= path@);
}

/// The identifier of the array that holds a file's bytes.
pub fn asset_identifier(path: &str) -> (r: String)
    ensures
        r@ == asset_name(path@),
{
    let mut out: Vec<char> = Vec::new();
    append_asset_name(&mut out, &chars_of(path));
    assert(out@ =~= asset_name(path@));
    string_from_chars(&out)
}

/// Appends the `match` arm of `get` for a file.
fn append_match_arm(out: &mut Vec<char>, path: &Vec<char>)
    ensures
        final(out)@ == old(out)@ + match_arm(path@),
{
    let ghost start = out@;
    append_str(out, "    \"");
    append_chars(out, path);
    append_str(out, "\"");
    append_str(out, " => Result::Ok(&");
    append_asset_name(out, path);
    append_str(out, "),\n");
    assert(out@ =~= start + match_arm(path@));
}

/// Appends the `static` item that holds a file's bytes.
fn append_static_item(out: &mut Vec<char>, path: &Vec<char>, data: &Vec<u8>)
    ensures
        final(out)@ == old(out)@ + static_item(path@, data@),
{
    let ghost start = out@;
    append_str(out, "pub static ");
    append_asset_name(out, path);
    append_str(out, ": [u8; ");
    append_decimal(out, data.len() as u64);
    append_str(out, "] = ");
    append_byte_list(out, data);
    append_str(out, ";\n");
    assert(out@ =~= start + static_item(path@, data@));
}

/// The `match` arm that the generated `get` function has for a file.
pub fn match_arm_text(path: &str) -> (r: String)
    ensures
        r@ == match_arm(path@),
{
    let mut out: Vec<char> = Vec::new();
    append_match_arm(&mut out, &chars_of(path));
    assert(out@ =~= match_arm(path@));
    string_from_chars(&out)
}

/// The `static` item that the generated source has for a file.
pub fn static_item_text(file: &AssetFile) -> (r: String)
    ensures
        r@ == static_item(file.path@, file.data@),
{
    let mut out: Vec<char> = Vec::new();
    append_static_item(&mut out, &chars_of(file.path.as_str()), &file.data);
    assert(out@ =~= static_item(file.path@, file.data@));
    string_from_chars(&out)
}

/// The Rust source that embeds the files, in the given order: the header,
/// one `static` byte array per file named after its path, then a `get`
/// function that maps each path to its array and any other name to the
/// error `"File Not Found"`.
pub fn generate_source(files: &Vec<AssetFile>) -> (r: String)
    ensures
        r@ == generated_source(asset_views(files@)),
{
    let ghost all = asset_views(files@);
    let mut items: Vec<char> = Vec::new();
    let mut arms: Vec<char> = Vec::new();
    let mut i: usize = 0;
    while i < files.len()
        invariant
            i <= files@.len(),
            all == asset_views(files@),
            items@ == static_items(all.take(i as int)),
            arms@ == match_arms(all.take(i as int)),
        decreases files@.len() - i,
    {
        let path = chars_of(files[i].path.as_str());
        append_static_item(&mut items, &path, &files[i].data);
        append_match_arm(&mut arms, &path);
        proof {
            let t = all.take(i + 1);
            assert(t.drop_last() =~= all.take(i as int));
            assert(t.last() == all[i as int]);
        }
        i = i + 1;
    }
    assert(all.take(i as int) =~= all);
    let mut out: Vec<char> = Vec::new();
    append_str(&mut out, "#![allow(dead_code)]");
    append_str(&mut out, "\n");
    append_str(&mut out, "#![allow(non_upper_case_globals)]");
    append_str(&mut out, "\n");
    append_chars(&mut out, &items);
    append_str(&mut out, "\npub fn get(name: &str) -> Result<&[u8], &str> {\n  match name {\n");
    append_chars(&mut out, &arms);
    append_str(&mut out, "    _=> Result::Err(\"File Not Found\")\n");
    append_str(&mut out, "  }\n}\n");
    assert(out@ =~= generated_source(all));
    string_from_chars(&out)
}

} // verus!
