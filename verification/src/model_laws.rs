//! What holds of every entry, and of every size and duration as it is shown.

use vstd::prelude::*;

verus! {

use crate::model::{Node, ScanResult};
use crate::model::{
    NodeModel,
    ScanResultModel,
    bytes_text,
    double_spacing,
    duration_text,
    millis_text,
    nearest_double,
    rounded_quotient,
};
use crate::order::models;
use crate::text::{decimal, texts, three_digits, two_digits};

/// The content of an entry is that of its fields, with the size to the last byte.
pub proof fn law_node_content(node: Node)
    ensures
        node@.name == node.name@,
        node@.path == node.path@,
        node@.kind == node.kind,
        node@.size == node.size,
        node@.children.len() == node.children@.len(),
        forall|i: int|
            0 <= i < node.children@.len() ==> #[trigger] node@.children[i] == node.children@[i]@,
{
}

/// The content of a result is that of its fields.
pub proof fn law_result_content(result: ScanResult)
    ensures
        result@.root == result.root@,
        result@.scanned_at_unix == result.scanned_at_unix,
        result@.scan_duration_ms == result.scan_duration_ms,
        result@.warnings == texts(result.warnings@),
{
}

/// A rounded quotient is as near as an integer can be, and of two that are as near it is the even
/// one.
pub proof fn law_rounded(a: nat, b: nat)
    requires
        b > 0,
    ensures
        2 * a <= (2 * rounded_quotient(a, b) + 1) * b,
        (2 * rounded_quotient(a, b) - 1) * b <= 2 * a,
        2 * a == (2 * rounded_quotient(a, b) + 1) * b ==> rounded_quotient(a, b) % 2 == 0,
        2 * a == (2 * rounded_quotient(a, b) - 1) * b ==> rounded_quotient(a, b) % 2 == 0,
{
    let q = a / b;
    let r = a % b;
    assert(a == q * b + r && r < b) by (nonlinear_arith)
        requires
            b > 0,
            q == a / b,
            r == a % b,
    ;
    let k = rounded_quotient(a, b);
    assert((2 * k + 1) * b == 2 * (k * b) + b) by (nonlinear_arith);
    assert((2 * k - 1) * b == 2 * (k * b) - b) by (nonlinear_arith);
    assert((q + 1) * b == q * b + b) by (nonlinear_arith);
}

/// Up to 53 binary digits a number is its own nearest double; beyond, the doubles lie so far apart
/// that 53 digits are enough to tell them apart, and the nearest is no farther than half of that.
pub proof fn law_nearest_double(n: nat)
    ensures
        n < 0x20_0000_0000_0000 ==> nearest_double(n) == n,
        double_spacing(n) >= 1,
        n >= 0x20_0000_0000_0000 ==> 0x10_0000_0000_0000 * double_spacing(n) <= n
            < 0x20_0000_0000_0000 * double_spacing(n),
        nearest_double(n) % double_spacing(n) == 0,
        2 * nearest_double(n) <= 2 * n + double_spacing(n),
        2 * n <= 2 * nearest_double(n) + double_spacing(n),
    decreases n,
{
    lemma_spacing(n);
    let s = double_spacing(n);
    let k = rounded_quotient(n, s);
    law_rounded(n, s);
    assert((2 * k + 1) * s == 2 * (k * s) + s) by (nonlinear_arith);
    assert((2 * k - 1) * s == 2 * (k * s) - s) by (nonlinear_arith);
    assert((k * s) % s == 0) by (nonlinear_arith)
        requires
            s >= 1,
    ;
}

proof fn lemma_spacing(n: nat)
    ensures
        double_spacing(n) >= 1,
        n < 0x20_0000_0000_0000 ==> double_spacing(n) == 1,
        n >= 0x20_0000_0000_0000 ==> 0x10_0000_0000_0000 * double_spacing(n) <= n
            < 0x20_0000_0000_0000 * double_spacing(n),
    decreases n,
{
    if n >= 0x20_0000_0000_0000 {
        lemma_spacing(n / 2);
    }
}

/// A size is shown exactly below 1024 bytes, and else in the largest unit of which it has one, to
/// the nearest hundredth. What is shown is the double nearest to the size, which is the size itself
/// up to 53 binary digits.
pub proof fn law_bytes(size: nat) -> (hundredths: nat)
    ensures
        size < 1024 ==> bytes_text(size) == decimal(size) + " B"@,
        size >= 1024 ==> ({
            let value = nearest_double(size);
            let unit: nat = if size < 1048576 {
                1024
            } else if size < 1073741824 {
                1048576
            } else if size < 1099511627776 {
                1073741824
            } else {
                1099511627776
            };
            let name = if size < 1048576 {
                " KiB"@
            } else if size < 1073741824 {
                " MiB"@
            } else if size < 1099511627776 {
                " GiB"@
            } else {
                " TiB"@
            };
            &&& bytes_text(size) == decimal(hundredths / 100) + "."@ + two_digits(hundredths % 100)
                + name
            &&& 200 * value <= 2 * hundredths * unit + unit
            &&& 2 * hundredths * unit <= 200 * value + unit
            &&& size < 0x20_0000_0000_0000 ==> value == size
            &&& 2 * value <= 2 * size + double_spacing(size)
            &&& 2 * size <= 2 * value + double_spacing(size)
        }),
{
    law_nearest_double(size);
    let value = nearest_double(size);
    if size >= 0x20_0000_0000_0000 {
        assert(value >= 1099511627776);
    }
    let unit: nat = if size < 1048576 {
        1024
    } else if size < 1073741824 {
        1048576
    } else if size < 1099511627776 {
        1073741824
    } else {
        1099511627776
    };
    let h = rounded_quotient(100 * value, unit);
    law_rounded(100 * value, unit);
    assert((2 * h + 1) * unit == 2 * h * unit + unit) by (nonlinear_arith);
    assert((2 * h - 1) * unit == 2 * h * unit - unit) by (nonlinear_arith);
    h
}

/// A duration is shown in seconds and the milliseconds beyond them, which make it up together.
pub proof fn law_durations(secs: nat, millis: nat)
    requires
        millis < 1000,
    ensures
        millis_text(1000 * secs + millis) == decimal(secs) + "."@ + three_digits(millis) + "s"@,
        duration_text(secs, millis) == millis_text(1000 * secs + millis),
{
}

/// A result holds the tree, the warnings and the duration that it was made of, and the time of the
/// clock to the second; a clock before the epoch counts as zero.
pub proof fn law_result_made(
    root: NodeModel,
    warnings: Seq<Seq<char>>,
    scan_duration_ms: nat,
    seconds: u64,
)
    ensures
        ({
            let result = ScanResultModel::made(root, warnings, scan_duration_ms, Some(seconds));
            &&& result.root == root
            &&& result.warnings == warnings
            &&& result.scan_duration_ms == scan_duration_ms
            &&& result.scanned_at_unix == seconds
        }),
        ScanResultModel::made(root, warnings, scan_duration_ms, None).scanned_at_unix == 0,
{
}

/// The contents of a list of entries are those of the entries, one by one.
pub proof fn law_models(nodes: Seq<Node>)
    ensures
        models(nodes).len() == nodes.len(),
        forall|i: int| 0 <= i < nodes.len() ==> #[trigger] models(nodes)[i] == nodes[i]@,
{
}

} // verus!
