//! The result of a scan: a tree of directory entries with their sizes.

use vstd::prelude::*;
use vstd::string::*;

use crate::text::{copy_texts, decimal_text, text2, three_digit_text, two_digit_text};

verus! {

use crate::text::{decimal, texts, three_digits, two_digits};

/// What a directory entry is.
#[derive(Debug, Clone, Copy, PartialEq, Eq, Structural)]
pub enum NodeKind {
    Directory,
    File,
    Symlink,
}

/// A directory entry with everything found below it.
#[derive(Debug)]
pub struct Node {
    pub name: String,
    pub path: String,
    pub kind: NodeKind,
    pub size: u64,
    pub children: Vec<Node>,
}

/// The mathematical content of a [`Node`].
#[verifier::ext_equal]
pub struct NodeModel {
    pub name: Seq<char>,
    pub path: Seq<char>,
    pub kind: NodeKind,
    pub size: nat,
    pub children: Seq<NodeModel>,
}

impl Node {
    /// The content of this entry and of all entries below it.
    pub open spec fn model(self) -> NodeModel
        decreases self,
    {
        NodeModel {
            name: self.name@,
            path: self.path@,
            kind: self.kind,
            size: self.size as nat,
            children: Seq::new(
                self.children@.len(),
                |i: int|
                    if 0 <= i < self.children@.len() {
                        self.children@[i].model()
                    } else {
                        arbitrary()
                    },
            ),
        }
    }

    /// The number of direct children.
    pub fn child_count(&self) -> (count: usize)
        ensures
            count == self@.children.len(),
    {
        self.children.len()
    }
}

impl Clone for Node {
    fn clone(&self) -> (copy: Self)
        ensures
            copy@ == self@,
        decreases self,
    {
        let mut children: Vec<Node> = Vec::new();
        let mut i: usize = 0;
        while i < self.children.len()
            invariant
                i <= self.children.len(),
                children.len() == i,
                forall|j: int| 0 <= j < i ==> (#[trigger] children@[j])@ == self.children@[j]@,
            decreases self.children.len() - i,
        {
            let child = self.children[i].clone();
            children.push(child);
            i += 1;
        }
        let copy = Node {
            name: self.name.clone(),
            path: self.path.clone(),
            kind: self.kind,
            size: self.size,
            children,
        };
        assert(copy@.children =~= self@.children);
        copy
    }
}

impl View for Node {
    type V = NodeModel;

    open spec fn view(&self) -> NodeModel {
        self.model()
    }
}

/// A scanned tree, when it was scanned, how long that took, and what went wrong.
#[derive(Debug)]
pub struct ScanResult {
    pub root: Node,
    pub scanned_at_unix: u64,
    pub scan_duration_ms: u64,
    pub warnings: Vec<String>,
}

/// The mathematical content of a [`ScanResult`].
#[verifier::ext_equal]
pub struct ScanResultModel {
    pub root: NodeModel,
    pub scanned_at_unix: nat,
    pub scan_duration_ms: nat,
    pub warnings: Seq<Seq<char>>,
}

impl View for ScanResult {
    type V = ScanResultModel;

    open spec fn view(&self) -> ScanResultModel {
        ScanResultModel {
            root: self.root@,
            scanned_at_unix: self.scanned_at_unix as nat,
            scan_duration_ms: self.scan_duration_ms as nat,
            warnings: texts(self.warnings@),
        }
    }
}

impl Clone for ScanResult {
    fn clone(&self) -> (copy: Self)
        ensures
            copy@ == self@,
    {
        ScanResult {
            root: self.root.clone(),
            scanned_at_unix: self.scanned_at_unix,
            scan_duration_ms: self.scan_duration_ms,
            warnings: copy_texts(&self.warnings),
        }
    }
}

impl ScanResultModel {
    /// A result with the time that a clock showed.
    pub open spec fn made(
        root: NodeModel,
        warnings: Seq<Seq<char>>,
        scan_duration_ms: nat,
        clock: Option<u64>,
    ) -> ScanResultModel {
        ScanResultModel {
            root,
            scanned_at_unix: match clock {
                Some(seconds) => seconds as nat,
                None => 0,
            },
            scan_duration_ms,
            warnings,
        }
    }
}

/// Reads the system clock with `SystemTime::now` and gives the whole seconds since the Unix epoch,
/// or nothing if the clock stands before it. The clock can show any time, so nothing is claimed
/// of the result.
#[verifier::external_body]
fn unix_clock() -> (seconds: Option<u64>) {
    std::time::SystemTime::now()
        .duration_since(std::time::UNIX_EPOCH)
        .ok()
        .map(|elapsed| elapsed.as_secs())
}

impl ScanResult {
    /// A result with the time at which the clock stands now.
    pub fn new(root: Node, warnings: Vec<String>, scan_duration_ms: u64) -> (result: Self)
        ensures
            result@.root == root@,
            result@.scan_duration_ms == scan_duration_ms,
            result@.warnings == texts(warnings@),
    {
        Self::at(root, warnings, scan_duration_ms, unix_clock())
    }

    /// A result with the time that a clock showed; a clock before the epoch counts as zero.
    pub fn at(
        root: Node,
        warnings: Vec<String>,
        scan_duration_ms: u64,
        clock: Option<u64>,
    ) -> (result: Self)
        ensures
            result@ == (ScanResultModel {
                root: root@,
                scanned_at_unix: match clock {
                    Some(seconds) => seconds as nat,
                    None => 0,
                },
                scan_duration_ms: scan_duration_ms as nat,
                warnings: texts(warnings@),
            }),
            result@ == ScanResultModel::made(
                root@,
                texts(warnings@),
                scan_duration_ms as nat,
                clock,
            ),
    {
        let scanned_at_unix: u64 = match clock {
            Some(seconds) => seconds,
            None => 0,
        };
        ScanResult { root, scanned_at_unix, scan_duration_ms, warnings }
    }
}

/// `a / b` rounded to the nearest integer, ties to the even one.
pub open spec fn rounded_quotient(a: nat, b: nat) -> nat {
    let q = a / b;
    let r = a % b;
    if 2 * r < b {
        q
    } else if 2 * r > b {
        q + 1
    } else {
        q + q % 2
    }
}

/// The distance between the double-precision numbers around `n`: numbers of up to 53 binary
/// digits are all representable, and each further digit doubles the distance.
pub open spec fn double_spacing(n: nat) -> nat
    decreases n,
{
    if n < 0x20_0000_0000_0000 {
        1
    } else {
        2 * double_spacing(n / 2)
    }
}

/// The double-precision number nearest to `n`.
pub open spec fn nearest_double(n: nat) -> nat {
    rounded_quotient(n, double_spacing(n)) * double_spacing(n)
}

/// `value` in units of `unit`, to two decimals.
pub open spec fn in_units(value: nat, unit: nat) -> Seq<char> {
    let hundredths = rounded_quotient(100 * value, unit);
    decimal(hundredths / 100) + "."@ + two_digits(hundredths % 100)
}

/// A size as it is shown: bytes exactly, larger units (each 1024 times the one before) to two
/// decimals of the size in double precision.
pub open spec fn bytes_text(size: nat) -> Seq<char> {
    let value = nearest_double(size);
    if value < 1024 {
        decimal(size) + " B"@
    } else if value < 1048576 {
        in_units(value, 1024) + " KiB"@
    } else if value < 1073741824 {
        in_units(value, 1048576) + " MiB"@
    } else if value < 1099511627776 {
        in_units(value, 1073741824) + " GiB"@
    } else {
        in_units(value, 1099511627776) + " TiB"@
    }
}

spec fn scaled(k: nat) -> nat
    decreases k,
{
    if k == 0 {
        0x20_0000_0000_0000
    } else {
        2 * scaled((k - 1) as nat)
    }
}

proof fn lemma_spacing_divides(n: nat, k: nat) -> (c: nat)
    requires
        n < scaled(k),
    ensures
        c * double_spacing(n) == scaled(k),
    decreases k,
{
    if n < 0x20_0000_0000_0000 {
        let c = scaled(k);
        assert(c * 1 == c);
        c
    } else {
        let c = lemma_spacing_divides(n / 2, (k - 1) as nat);
        let s = double_spacing(n / 2);
        assert(double_spacing(n) == 2 * s);
        assert(c * (2 * s) == 2 * (c * s)) by (nonlinear_arith);
        c
    }
}

proof fn lemma_nearest_double_bound(n: u64)
    ensures
        nearest_double(n as nat) <= 0x1_0000_0000_0000_0000,
        double_spacing(n as nat) >= 1,
{
    reveal_with_fuel(scaled, 12);
    let s = double_spacing(n as nat);
    let c = lemma_spacing_divides(n as nat, 11);
    let q = rounded_quotient(n as nat, s);
    assert(s >= 1) by (nonlinear_arith)
        requires
            c * s == 0x1_0000_0000_0000_0000,
            s >= 0,
    ;
    assert(n as nat / s < c) by (nonlinear_arith)
        requires
            c * s == 0x1_0000_0000_0000_0000,
            n < 0x1_0000_0000_0000_0000,
            s >= 1,
    ;
    assert(q <= c);
    assert(q * s <= c * s) by (nonlinear_arith)
        requires
            q <= c,
            s >= 1,
    ;
}

fn spacing_of(n: u64) -> (spacing: u64)
    ensures
        spacing == double_spacing(n as nat),
        1 <= spacing,
        n >= 1 ==> spacing <= n,
    decreases n,
{
    if n < 0x20_0000_0000_0000 {
        1
    } else {
        2 * spacing_of(n / 2)
    }
}

fn round_quotient(a: u128, b: u128) -> (q: u128)
    requires
        0 < b < 0x1_0000_0000_0000_0000,
        a < 0x1000_0000_0000_0000_0000_0000,
    ensures
        q == rounded_quotient(a as nat, b as nat),
{
    let q: u128 = a / b;
    let r: u128 = a % b;
    assert(q <= a) by (nonlinear_arith)
        requires
            q == a / b,
            b > 0,
    ;
    if 2 * r < b {
        q
    } else if 2 * r > b {
        q + 1
    } else {
        q + q % 2
    }
}

fn unit_text(value: u128, unit: u128, name: &str) -> (text: String)
    requires
        0 < unit <= 1099511627776,
        value < 1024 * unit || unit == 1099511627776,
        value <= 0x1_0000_0000_0000_0000,
    ensures
        text@ == in_units(value as nat, unit as nat) + name@,
{
    let hundredths: u128 = round_quotient(100 * value, unit);
    assert(hundredths < 0x1_0000_0000_0000) by {
        assert((100 * value) / (unit as int) <= 100 * 1024 * 16777216) by (nonlinear_arith)
            requires
                0 < unit <= 1099511627776,
                value < 1024 * unit || unit == 1099511627776,
                value <= 0x1_0000_0000_0000_0000,
        ;
    }
    let whole: u64 = (hundredths / 100) as u64;
    let part: u64 = (hundredths % 100) as u64;
    let mut text = decimal_text(whole);
    text.append(".");
    text.append(two_digit_text(part).as_str());
    text.append(name);
    text
}

/// A size as it is shown.
pub fn format_bytes(size: u64) -> (text: String)
    ensures
        text@ == bytes_text(size as nat),
{
    let spacing: u64 = spacing_of(size);
    let steps: u128 = round_quotient(size as u128, spacing as u128);
    assert(steps * spacing <= 0x1_0000_0000_0000_0000) by {
        lemma_nearest_double_bound(size);
    }
    let value: u128 = steps * (spacing as u128);
    if value < 1024 {
        text2(decimal_text(size).as_str(), " B")
    } else if value < 1048576 {
        unit_text(value, 1024, " KiB")
    } else if value < 1073741824 {
        unit_text(value, 1048576, " MiB")
    } else if value < 1099511627776 {
        unit_text(value, 1073741824, " GiB")
    } else {
        unit_text(value, 1099511627776, " TiB")
    }
}

/// The seconds and the part of a second as they are shown.
pub open spec fn duration_text(secs: nat, millis: nat) -> Seq<char> {
    decimal(secs) + "."@ + three_digits(millis) + "s"@
}

/// A duration as it is shown, from its whole seconds and the milliseconds beyond them.
pub fn format_duration(secs: u64, millis: u32) -> (text: String)
    ensures
        text@ == duration_text(secs as nat, millis as nat),
{
    let mut text = decimal_text(secs);
    text.append(".");
    text.append(three_digit_text(millis as u64).as_str());
    text.append("s");
    text
}

/// A number of milliseconds as it is shown.
pub open spec fn millis_text(ms: nat) -> Seq<char> {
    duration_text(ms / 1000, ms % 1000)
}

/// A duration in milliseconds as it is shown.
pub fn format_duration_ms(ms: u64) -> (text: String)
    ensures
        text@ == millis_text(ms as nat),
{
    format_duration(ms / 1000, (ms % 1000) as u32)
}

} // verus!
