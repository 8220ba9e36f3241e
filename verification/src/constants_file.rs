//! The text of the Kotlin and Swift constants files that carry the protocol
//! constants to the mobile apps.
use vstd::prelude::*;
use convert_case::{Case, Casing};
use crate::text::{
    decimal, digit_char, hex_byte, join_with, push_char, push_decimal, push_hex_byte,
};

verus! {

/// Digits split into groups of three from the right, joined with `_`.
pub open spec fn group_digits(d: Seq<char>) -> Seq<char>
    decreases d.len(),
{
    if d.len() <= 3 {
        d
    } else {
        group_digits(d.take(d.len() - 3)) + seq!['_'] + d.skip(d.len() - 3)
    }
}

/// Below 10 000 a number is written plainly; from there on its digits are
/// grouped by three with `_`, as most formatters ask from that size.
pub open spec fn format_number_spec(n: nat) -> Seq<char> {
    if n < 10000 {
        decimal(n)
    } else {
        group_digits(decimal(n))
    }
}

/// `s` without its `_` separators.
pub open spec fn without_separators(s: Seq<char>) -> Seq<char>
    decreases s.len(),
{
    if s.len() == 0 {
        seq![]
    } else if s.last() == '_' {
        without_separators(s.drop_last())
    } else {
        without_separators(s.drop_last()).push(s.last())
    }
}

proof fn lemma_without_separators_append(a: Seq<char>, b: Seq<char>)
    ensures
        without_separators(a + b) == without_separators(a) + without_separators(b),
    decreases b.len(),
{
    if b.len() == 0 {
        assert(a + b =~= a);
        assert(without_separators(a) + without_separators(b) =~= without_separators(a));
    } else {
        assert((a + b).drop_last() =~= a + b.drop_last());
        lemma_without_separators_append(a, b.drop_last());
        assert(without_separators(a + b) =~= without_separators(a) + without_separators(b));
    }
}

proof fn lemma_no_separators(d: Seq<char>)
    requires
        forall|i: int| 0 <= i < d.len() ==> d[i] != '_',
    ensures
        without_separators(d) == d,
    decreases d.len(),
{
    if d.len() > 0 {
        lemma_no_separators(d.drop_last());
        assert(d.drop_last().push(d.last()) =~= d);
    }
}

proof fn lemma_grouping_keeps_digits(d: Seq<char>)
    requires
        forall|i: int| 0 <= i < d.len() ==> d[i] != '_',
    ensures
        without_separators(group_digits(d)) == d,
    decreases d.len(),
{
    if d.len() <= 3 {
        lemma_no_separators(d);
    } else {
        let head = d.take(d.len() - 3);
        let tail = d.skip(d.len() - 3);
        lemma_grouping_keeps_digits(head);
        lemma_no_separators(tail);
        lemma_without_separators_append(group_digits(head), seq!['_']);
        lemma_without_separators_append(group_digits(head) + seq!['_'], tail);
        let sep = seq!['_'];
        assert(sep.drop_last() =~= Seq::<char>::empty());
        assert(without_separators(Seq::<char>::empty()) == Seq::<char>::empty());
        assert(without_separators(sep) =~= Seq::<char>::empty());
        assert(head + tail =~= d);
        assert(without_separators(group_digits(d)) =~= head + tail);
    }
}

proof fn lemma_decimal_has_no_separators(n: nat)
    ensures
        forall|i: int| 0 <= i < decimal(n).len() ==> decimal(n)[i] != '_',
    decreases n,
{
    if n >= 10 {
        lemma_decimal_has_no_separators(n / 10);
        let last = digit_char(n % 10);
        assert(last != '_');
        assert(decimal(n) == decimal(n / 10).push(last));
    } else {
        assert(digit_char(n) != '_');
        assert(decimal(n) == seq![digit_char(n)]);
    }
}

/// The separators never change the number: dropping every `_` from a
/// formatted number gives back its plain decimal digits.
pub proof fn lemma_format_number_keeps_digits(n: nat)
    ensures
        without_separators(format_number_spec(n)) == decimal(n),
{
    lemma_decimal_has_no_separators(n);
    if n < 10000 {
        lemma_no_separators(decimal(n));
    } else {
        lemma_grouping_keeps_digits(decimal(n));
    }
}

fn push_decimal_chars(v: &mut Vec<char>, n: u64)
    ensures
        final(v)@ == old(v)@ + decimal(n as nat),
    decreases n,
{
    let d: char = match n % 10 {
        0 => '0',
        1 => '1',
        2 => '2',
        3 => '3',
        4 => '4',
        5 => '5',
        6 => '6',
        7 => '7',
        8 => '8',
        _ => '9',
    };
    if n < 10 {
        v.push(d);
        assert(v@ =~= old(v)@ + decimal(n as nat));
    } else {
        push_decimal_chars(v, n / 10);
        v.push(d);
        assert(v@ =~= old(v)@ + decimal(n as nat));
    }
}

fn push_grouped(out: &mut String, d: &Vec<char>, end: usize)
    requires
        end <= d.len(),
    ensures
        final(out)@ == old(out)@ + group_digits(d@.take(end as int)),
    decreases end,
{
    if end <= 3 {
        let mut i: usize = 0;
        while i < end
            invariant
                i <= end <= d.len(),
                out@ == old(out)@ + d@.take(i as int),
            decreases end - i,
        {
            push_char(out, d[i]);
            assert(d@.take(i + 1) =~= d@.take(i as int).push(d@[i as int]));
            i = i + 1;
        }
    } else {
        push_grouped(out, d, end - 3);
        assert(d@.take(end as int).take(end - 3) =~= d@.take(end - 3));
        push_char(out, '_');
        push_char(out, d[end - 3]);
        push_char(out, d[end - 2]);
        push_char(out, d[end - 1]);
        assert(d@.take(end as int).skip(end - 3) =~= seq![d@[end - 3], d@[end - 2], d@[end - 1]]);
        assert(out@ =~= old(out)@ + group_digits(d@.take(end as int)));
    }
}

/// A number as the constants files write it.
pub fn format_number(num: usize) -> (r: String)
    ensures
        r@ == format_number_spec(num as nat),
{
    let mut digits: Vec<char> = Vec::new();
    push_decimal_chars(&mut digits, num as u64);
    assert(digits@ =~= decimal(num as nat));
    let mut r = String::new();
    if num < 10000 {
        let mut i: usize = 0;
        while i < digits.len()
            invariant
                i <= digits.len(),
                r@ == digits@.take(i as int),
            decreases digits.len() - i,
        {
            push_char(&mut r, digits[i]);
            assert(digits@.take(i + 1) =~= digits@.take(i as int).push(digits@[i as int]));
            i = i + 1;
        }
        assert(digits@.take(digits.len() as int) =~= digits@);
    } else {
        push_grouped(&mut r, &digits, digits.len());
        assert(digits@.take(digits.len() as int) =~= digits@);
        assert(r@ =~= group_digits(decimal(num as nat)));
    }
    r
}

/// One byte as a Kotlin or Swift literal: `0x` and two lower-case hex digits.
pub open spec fn byte_literal(b: u8) -> Seq<char> {
    "0x"@ + hex_byte(b)
}

pub open spec fn byte_literals(bytes: Seq<u8>) -> Seq<Seq<char>> {
    bytes.map_values(|b: u8| byte_literal(b))
}

/// The bytes as literals separated by `, `.
pub open spec fn format_bytes_spec(bytes: Seq<u8>) -> Seq<char> {
    join_with(byte_literals(bytes), ", "@)
}

/// The bytes as the constants files write a byte array's elements.
pub fn format_bytes(bytes: &[u8]) -> (r: String)
    ensures
        r@ == format_bytes_spec(bytes@),
{
    let ghost lits = byte_literals(bytes@);
    let mut r = String::new();
    let mut i: usize = 0;
    while i < bytes.len()
        invariant
            i <= bytes.len(),
            lits == byte_literals(bytes@),
            r@ == join_with(lits.take(i as int), ", "@),
        decreases bytes.len() - i,
    {
        assert(lits.take(i + 1).drop_last() =~= lits.take(i as int));
        assert(lits.take(i + 1).last() == byte_literal(bytes@[i as int]));
        if i > 0 {
            r.append(", ");
        } else {
            assert(lits.take(1) =~= seq![byte_literal(bytes@[0])]);
        }
        let ghost before = r@;
        r.append("0x");
        push_hex_byte(&mut r, bytes[i]);
        assert(r@ =~= before + byte_literal(bytes@[i as int]));
        i = i + 1;
    }
    assert(lits.take(bytes.len() as int) =~= lits);
    r
}

/// The camel-case form that the `convert_case` crate gives a constant's name.
pub uninterp spec fn camel_case(name: Seq<char>) -> Seq<char>;

/// Converts a name to camel case with `convert_case`'s `Casing::to_case`
/// and `Case::Camel`.  Only that the result is a function of the name is
/// claimed; what the conversion does is left to that crate.
#[verifier::external_body]
fn to_camel_case(name: &str) -> (r: String)
    ensures
        r@ == camel_case(name@),
{
    name.to_case(Case::Camel)
}

/// One protocol constant to write, with the name it has in the protocol.
#[derive(Clone, Debug)]
pub enum ConstantEntry {
    /// A count or length.
    Number { name: String, value: usize },
    /// A duration, written in seconds under the name with `_SECONDS` added.
    DurationSeconds { name: String, seconds: usize },
    /// A duration, written in seconds under the name with `_IN_SECONDS` added.
    DurationInSeconds { name: String, seconds: usize },
    /// A single byte.
    Byte { name: String, value: u8 },
    /// A byte array.
    Bytes { name: String, value: Vec<u8> },
}

/// The mathematical content of a constant entry.
pub enum ConstantEntryView {
    Number { name: Seq<char>, value: nat },
    DurationSeconds { name: Seq<char>, seconds: nat },
    DurationInSeconds { name: Seq<char>, seconds: nat },
    Byte { name: Seq<char>, value: u8 },
    Bytes { name: Seq<char>, value: Seq<u8> },
}

impl View for ConstantEntry {
    type V = ConstantEntryView;

    open spec fn view(&self) -> ConstantEntryView {
        match self {
            ConstantEntry::Number { name, value } => ConstantEntryView::Number {
                name: name@,
                value: *value as nat,
            },
            ConstantEntry::DurationSeconds { name, seconds } => ConstantEntryView::DurationSeconds {
                name: name@,
                seconds: *seconds as nat,
            },
            ConstantEntry::DurationInSeconds { name, seconds } => ConstantEntryView::DurationInSeconds {
                name: name@,
                seconds: *seconds as nat,
            },
            ConstantEntry::Byte { name, value } => ConstantEntryView::Byte { name: name@, value: *value },
            ConstantEntry::Bytes { name, value } => ConstantEntryView::Bytes {
                name: name@,
                value: value@,
            },
        }
    }
}

/// The Kotlin line declaring a constant.  Kotlin writes every duration under
/// the name with `_SECONDS` added.
pub open spec fn android_line_spec(e: ConstantEntryView) -> Seq<char> {
    match e {
        ConstantEntryView::Number { name, value } => "internal const val "@ + name + " = "@
            + format_number_spec(value) + "\n"@,
        ConstantEntryView::DurationSeconds { name, seconds } => "internal const val "@ + name
            + "_SECONDS = "@ + format_number_spec(seconds) + "\n"@,
        ConstantEntryView::DurationInSeconds { name, seconds } => "internal const val "@ + name
            + "_SECONDS = "@ + format_number_spec(seconds) + "\n"@,
        ConstantEntryView::Byte { name, value } => "internal const val "@ + name + ": Byte = "@
            + byte_literal(value) + "\n"@,
        ConstantEntryView::Bytes { name, value } => "internal val "@ + name + " = byteArrayOf("@
            + format_bytes_spec(value) + ")\n"@,
    }
}

/// The Swift line declaring a constant, under the camel-case name.
pub open spec fn ios_line_spec(e: ConstantEntryView) -> Seq<char> {
    match e {
        ConstantEntryView::Number { name, value } => "    public static let "@ + camel_case(name) + " = "@
            + format_number_spec(value) + "\n"@,
        ConstantEntryView::DurationSeconds { name, seconds } => "    public static let "@ + camel_case(
            name + "_SECONDS"@,
        ) + " = "@ + format_number_spec(seconds) + "\n"@,
        ConstantEntryView::DurationInSeconds { name, seconds } => "    public static let "@ + camel_case(
            name + "_IN_SECONDS"@,
        ) + " = "@ + format_number_spec(seconds) + "\n"@,
        ConstantEntryView::Byte { name, value } => "    public static let "@ + camel_case(name)
            + ": UInt8 = "@ + byte_literal(value) + "\n"@,
        ConstantEntryView::Bytes { name, value } => "    public static let "@ + camel_case(name) + " = ["@
            + format_bytes_spec(value) + "]\n"@,
    }
}

fn append_number(r: &mut String, n: usize)
    ensures
        final(r)@ == old(r)@ + format_number_spec(n as nat),
{
    let s = format_number(n);
    r.append(s.as_str());
}

/// The Kotlin line declaring a constant.
pub fn android_line(entry: &ConstantEntry) -> (r: String)
    ensures
        r@ == android_line_spec(entry@),
{
    match entry {
        ConstantEntry::Number { name, value } => {
            let mut r = String::from_str("internal const val ");
            r.append(name.as_str());
            r.append(" = ");
            append_number(&mut r, *value);
            r.append("\n");
            r
        },
        ConstantEntry::DurationSeconds { name, seconds } | ConstantEntry::DurationInSeconds {
            name,
            seconds,
        } => {
            let mut r = String::from_str("internal const val ");
            r.append(name.as_str());
            r.append("_SECONDS = ");
            append_number(&mut r, *seconds);
            r.append("\n");
            r
        },
        ConstantEntry::Byte { name, value } => {
            let mut r = String::from_str("internal const val ");
            r.append(name.as_str());
            r.append(": Byte = ");
            r.append("0x");
            push_hex_byte(&mut r, *value);
            r.append("\n");
            assert(r@ =~= android_line_spec(entry@));
            r
        },
        ConstantEntry::Bytes { name, value } => {
            let mut r = String::from_str("internal val ");
            r.append(name.as_str());
            r.append(" = byteArrayOf(");
            let b = format_bytes(value.as_slice());
            r.append(b.as_str());
            r.append(")\n");
            r
        },
    }
}

/// The Swift line declaring a constant.
pub fn ios_line(entry: &ConstantEntry) -> (r: String)
    ensures
        r@ == ios_line_spec(entry@),
{
    match entry {
        ConstantEntry::Number { name, value } => {
            let mut r = String::from_str("    public static let ");
            let camel = to_camel_case(name.as_str());
            r.append(camel.as_str());
            r.append(" = ");
            append_number(&mut r, *value);
            r.append("\n");
            r
        },
        ConstantEntry::DurationSeconds { name, seconds } => {
            let mut r = String::from_str("    public static let ");
            let full = name.clone().concat("_SECONDS");
            let camel = to_camel_case(full.as_str());
            r.append(camel.as_str());
            r.append(" = ");
            append_number(&mut r, *seconds);
            r.append("\n");
            r
        },
        ConstantEntry::DurationInSeconds { name, seconds } => {
            let mut r = String::from_str("    public static let ");
            let full = name.clone().concat("_IN_SECONDS");
            let camel = to_camel_case(full.as_str());
            r.append(camel.as_str());
            r.append(" = ");
            append_number(&mut r, *seconds);
            r.append("\n");
            r
        },
        ConstantEntry::Byte { name, value } => {
            let mut r = String::from_str("    public static let ");
            let camel = to_camel_case(name.as_str());
            r.append(camel.as_str());
            r.append(": UInt8 = ");
            r.append("0x");
            push_hex_byte(&mut r, *value);
            r.append("\n");
            assert(r@ =~= ios_line_spec(entry@));
            r
        },
        ConstantEntry::Bytes { name, value } => {
            let mut r = String::from_str("    public static let ");
            let camel = to_camel_case(name.as_str());
            r.append(camel.as_str());
            r.append(" = [");
            let b = format_bytes(value.as_slice());
            r.append(b.as_str());
            r.append("]\n");
            r
        },
    }
}

/// The lines of all entries, one after another.
pub open spec fn lines_of(entries: Seq<ConstantEntryView>, line: spec_fn(ConstantEntryView) -> Seq<char>) -> Seq<char>
    decreases entries.len(),
{
    if entries.len() == 0 {
        seq![]
    } else {
        lines_of(entries.drop_last(), line) + line(entries.last())
    }
}

pub open spec fn entries_view(entries: Seq<ConstantEntry>) -> Seq<ConstantEntryView> {
    entries.map_values(|e: ConstantEntry| e@)
}

pub open spec fn android_file_spec(header: Seq<char>, entries: Seq<ConstantEntryView>) -> Seq<char> {
    "package com.theguardian.coverdrop.core.generated\n\n"@ + header + lines_of(
        entries,
        |e: ConstantEntryView| android_line_spec(e),
    ) + "\n"@
}

/// The Kotlin constants file: the package declaration, the header comment,
/// one line per entry, and a closing empty line.
pub fn android_constants_file(header: &str, entries: &Vec<ConstantEntry>) -> (r: String)
    ensures
        r@ == android_file_spec(header@, entries_view(entries@)),
{
    let ghost ev = entries_view(entries@);
    let mut r = String::from_str("package com.theguardian.coverdrop.core.generated\n\n");
    r.append(header);
    let ghost head = r@;
    let mut i: usize = 0;
    while i < entries.len()
        invariant
            i <= entries.len(),
            ev == entries_view(entries@),
            r@ == head + lines_of(ev.take(i as int), |e: ConstantEntryView| android_line_spec(e)),
        decreases entries.len() - i,
    {
        assert(ev.take(i + 1).drop_last() =~= ev.take(i as int));
        assert(ev.take(i + 1).last() == entries@[i as int]@);
        let line = android_line(&entries[i]);
        r.append(line.as_str());
        assert(r@ =~= head + lines_of(ev.take(i + 1), |e: ConstantEntryView| android_line_spec(e)));
        i = i + 1;
    }
    assert(ev.take(entries.len() as int) =~= ev);
    r.append("\n");
    r
}

pub open spec fn ios_file_spec(header: Seq<char>, entries: Seq<ConstantEntryView>) -> Seq<char> {
    header + "// swiftlint:disable identifier_name\npublic enum Constants {\n"@ + lines_of(
        entries,
        |e: ConstantEntryView| ios_line_spec(e),
    ) + "}\n\n// swiftlint:enable identifier_name"@ + "\n"@
}

/// The Swift constants file: the header comment, the opening of the
/// `Constants` enum, one line per entry, its closing, and a final newline.
pub fn ios_constants_file(header: &str, entries: &Vec<ConstantEntry>) -> (r: String)
    ensures
        r@ == ios_file_spec(header@, entries_view(entries@)),
{
    let ghost ev = entries_view(entries@);
    let mut r = String::from_str(header);
    r.append("// swiftlint:disable identifier_name\npublic enum Constants {\n");
    let ghost head = r@;
    let mut i: usize = 0;
    while i < entries.len()
        invariant
            i <= entries.len(),
            ev == entries_view(entries@),
            r@ == head + lines_of(ev.take(i as int), |e: ConstantEntryView| ios_line_spec(e)),
        decreases entries.len() - i,
    {
        assert(ev.take(i + 1).drop_last() =~= ev.take(i as int));
        assert(ev.take(i + 1).last() == entries@[i as int]@);
        let line = ios_line(&entries[i]);
        r.append(line.as_str());
        assert(r@ =~= head + lines_of(ev.take(i + 1), |e: ConstantEntryView| ios_line_spec(e)));
        i = i + 1;
    }
    assert(ev.take(entries.len() as int) =~= ev);
    r.append("}\n\n// swiftlint:enable identifier_name");
    r.append("\n");
    r
}

} // verus!
