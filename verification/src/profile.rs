use crate::text::{
    append_digits, chars_of, contents, dash_free, digits_of, ends_with, has_suffix, joined,
    lemma_digits_of_value, lemma_segments_of_joined, number, parse_number, same_text, segments,
    split_segments,
};
use vstd::prelude::*;
use vstd::slice::slice_subrange;
use vstd::string::*;

verus! {

/// Milli-units of cpu, and MiB of memory, in one whole unit of a label.
pub const MILLI: i32 = 1024;

/// Disk size, in GiB, of a label that names none.
pub const DEFAULT_DISK: i32 = 20;

/// Largest count of whole units whose milli-units still fit the profile.
pub const MAX_WHOLE_UNITS: u32 = 2097151;

/// Largest disk size and timeout that a label can ask for.
pub const MAX_QUANTITY: u32 = 2147483647;

/// The sizing of one runner: cpu in milli-units, memory in MiB, ephemeral
/// disk in GiB and the job timeout in minutes.
#[derive(Clone, Copy, Debug, PartialEq, Eq, Structural)]
pub struct ResourceProfile {
    pub cpu: i32,
    pub memory: i32,
    pub disk: i32,
    pub timeout: i32,
}

impl ResourceProfile {
    /// A profile asks for some cpu and some memory, and for no negative amount.
    pub open spec fn wf(&self) -> bool {
        self.cpu > 0 && self.memory > 0 && self.disk >= 0 && self.timeout >= 0
    }

    /// A profile whose cpu and memory are whole units, as every label gives.
    pub open spec fn whole(&self) -> bool {
        self.wf() && self.cpu % MILLI == 0 && self.memory % MILLI == 0
    }
}

/// One line of the compatibility table.
#[derive(Clone, Copy, Debug)]
pub struct TableEntry {
    pub label: &'static str,
    pub profile: ResourceProfile,
}

/// The text `-`.
pub open spec fn dash() -> Seq<char> {
    seq!['-']
}

/// The first segment of every label, `aws`.
pub open spec fn scheme_aws() -> Seq<char> {
    seq!['a', 'w', 's']
}

/// The second segment of every label, `ecs`.
pub open spec fn scheme_ecs() -> Seq<char> {
    seq!['e', 'c', 's']
}

/// The unit of the cpu segment, `cpu`.
pub open spec fn unit_cpu() -> Seq<char> {
    seq!['c', 'p', 'u']
}

/// The unit of the memory segment, `mem`.
pub open spec fn unit_mem() -> Seq<char> {
    seq!['m', 'e', 'm']
}

/// The unit of the disk segment, `disk`.
pub open spec fn unit_disk() -> Seq<char> {
    seq!['d', 'i', 's', 'k']
}

/// The unit of the timeout segment, `m` for minutes.
pub open spec fn unit_minutes() -> Seq<char> {
    seq!['m']
}

/// The amount that `segment` states in `unit`: a decimal number of at most
/// `limit`, directly followed by the unit's name.
pub open spec fn quantity(segment: Seq<char>, unit: Seq<char>, limit: nat) -> Option<nat> {
    if has_suffix(segment, unit) {
        number(segment.take(segment.len() - unit.len()), limit)
    } else {
        None
    }
}

/// The profile of four amounts, where all four were read and neither cpu nor
/// memory is zero. Cpu and memory are counted in whole units.
pub open spec fn sized(
    cpu: Option<nat>,
    memory: Option<nat>,
    disk: Option<nat>,
    timeout: Option<nat>,
) -> Option<ResourceProfile> {
    if cpu is Some && memory is Some && disk is Some && timeout is Some && cpu.unwrap() > 0
        && memory.unwrap() > 0 {
        Some(
            ResourceProfile {
                cpu: (cpu.unwrap() * MILLI) as i32,
                memory: (memory.unwrap() * MILLI) as i32,
                disk: disk.unwrap() as i32,
                timeout: timeout.unwrap() as i32,
            },
        )
    } else {
        None
    }
}

/// What a label asks for. A label is `aws-ecs-<cpu>cpu-<memory>mem-<disk>disk-<timeout>m`,
/// or the same without the disk segment, which stands for the default disk.
/// Any other text asks for nothing.
pub open spec fn decode_label(label: Seq<char>) -> Option<ResourceProfile> {
    let parts = segments(label);
    if parts.len() < 2 || parts[0] != scheme_aws() || parts[1] != scheme_ecs() {
        None
    } else if parts.len() == 6 {
        sized(
            quantity(parts[2], unit_cpu(), MAX_WHOLE_UNITS as nat),
            quantity(parts[3], unit_mem(), MAX_WHOLE_UNITS as nat),
            quantity(parts[4], unit_disk(), MAX_QUANTITY as nat),
            quantity(parts[5], unit_minutes(), MAX_QUANTITY as nat),
        )
    } else if parts.len() == 5 {
        sized(
            quantity(parts[2], unit_cpu(), MAX_WHOLE_UNITS as nat),
            quantity(parts[3], unit_mem(), MAX_WHOLE_UNITS as nat),
            Some(DEFAULT_DISK as nat),
            quantity(parts[4], unit_minutes(), MAX_QUANTITY as nat),
        )
    } else {
        None
    }
}

/// The label with a disk segment that states the four amounts without
/// leading zeros.
pub open spec fn generic_text(cpu: nat, memory: nat, disk: nat, timeout: nat) -> Seq<char> {
    joined(
        seq![
            scheme_aws(),
            scheme_ecs(),
            digits_of(cpu) + unit_cpu(),
            digits_of(memory) + unit_mem(),
            digits_of(disk) + unit_disk(),
            digits_of(timeout) + unit_minutes(),
        ],
        dash(),
    )
}

/// The label without a disk segment that states the three amounts without
/// leading zeros.
pub open spec fn legacy_text(cpu: nat, memory: nat, timeout: nat) -> Seq<char> {
    joined(
        seq![
            scheme_aws(),
            scheme_ecs(),
            digits_of(cpu) + unit_cpu(),
            digits_of(memory) + unit_mem(),
            digits_of(timeout) + unit_minutes(),
        ],
        dash(),
    )
}

/// The canonical label of a profile.
pub open spec fn canonical_text(profile: ResourceProfile) -> Seq<char> {
    generic_text(
        (profile.cpu / MILLI) as nat,
        (profile.memory / MILLI) as nat,
        profile.disk as nat,
        profile.timeout as nat,
    )
}

/// The labels that were authorized by hand before the grammar existed, each
/// with the profile it stands for.
pub open spec fn pinned() -> Seq<(Seq<char>, ResourceProfile)> {
    seq![
        (
            "aws-ecs-16cpu-64mem-30m"@,
            ResourceProfile { cpu: 16384, memory: 65536, disk: 20, timeout: 30 },
        ),
        (
            "aws-ecs-16cpu-64mem-20disk-30m"@,
            ResourceProfile { cpu: 16384, memory: 65536, disk: 20, timeout: 30 },
        ),
        (
            "aws-ecs-16cpu-64mem-30disk-30m"@,
            ResourceProfile { cpu: 16384, memory: 65536, disk: 30, timeout: 30 },
        ),
        (
            "aws-ecs-16cpu-64mem-40disk-30m"@,
            ResourceProfile { cpu: 16384, memory: 65536, disk: 40, timeout: 30 },
        ),
        (
            "aws-ecs-16cpu-32mem-20disk-30m"@,
            ResourceProfile { cpu: 16384, memory: 32768, disk: 20, timeout: 30 },
        ),
        (
            "aws-ecs-16cpu-24mem-20disk-30m"@,
            ResourceProfile { cpu: 16384, memory: 24576, disk: 20, timeout: 30 },
        ),
        (
            "aws-ecs-16cpu-16mem-20disk-30m"@,
            ResourceProfile { cpu: 16384, memory: 16384, disk: 20, timeout: 30 },
        ),
        (
            "aws-ecs-12cpu-8mem-20disk-30m"@,
            ResourceProfile { cpu: 12288, memory: 8192, disk: 20, timeout: 30 },
        ),
        (
            "aws-ecs-8cpu-8mem-20disk-30m"@,
            ResourceProfile { cpu: 8192, memory: 8192, disk: 20, timeout: 30 },
        ),
    ]
}

/// The table as the pairs of text and profile that it holds.
pub open spec fn entries(table: Seq<TableEntry>) -> Seq<(Seq<char>, ResourceProfile)> {
    Seq::new(table.len(), |i: int| (table[i].label@, table[i].profile))
}

/// The profile of the first line of `table` whose label is `label`.
pub open spec fn pinned_profile(
    table: Seq<(Seq<char>, ResourceProfile)>,
    label: Seq<char>,
) -> Option<ResourceProfile>
    decreases table.len(),
{
    if table.len() == 0 {
        None
    } else if table[0].0 == label {
        Some(table[0].1)
    } else {
        pinned_profile(table.skip(1), label)
    }
}

/// An amount as the natural number it is.
pub open spec fn amount(v: Option<u32>) -> Option<nat> {
    match v {
        Some(n) => Some(n as nat),
        None => None,
    }
}

/// An amount written without leading zeros and followed by its unit reads
/// back as that amount, and holds no dash.
proof fn lemma_unit_segment(n: nat, unit: Seq<char>, limit: nat)
    requires
        n <= limit,
        dash_free(unit),
    ensures
        quantity(digits_of(n) + unit, unit, limit) == Some(n),
        dash_free(digits_of(n) + unit),
{
    lemma_digits_of_value(n);
    let seg = digits_of(n) + unit;
    assert(seg.skip(seg.len() - unit.len()) =~= unit);
    assert(seg.take(seg.len() - unit.len()) =~= digits_of(n));
    assert forall|i: int| 0 <= i < seg.len() implies #[trigger] seg[i] != '-' by {
        if i < digits_of(n).len() {
            assert(seg[i] == digits_of(n)[i]);
        } else {
            assert(seg[i] == unit[i - digits_of(n).len()]);
        }
    }
}

/// The label with a disk segment, written out piece by piece.
proof fn lemma_generic_text_flat(cpu: nat, memory: nat, disk: nat, timeout: nat)
    ensures
        generic_text(cpu, memory, disk, timeout) == scheme_aws() + dash() + scheme_ecs() + dash()
            + (digits_of(cpu) + unit_cpu()) + dash() + (digits_of(memory) + unit_mem()) + dash() + (
        digits_of(disk) + unit_disk()) + dash() + (digits_of(timeout) + unit_minutes()),
{
    let parts = seq![
        scheme_aws(),
        scheme_ecs(),
        digits_of(cpu) + unit_cpu(),
        digits_of(memory) + unit_mem(),
        digits_of(disk) + unit_disk(),
        digits_of(timeout) + unit_minutes(),
    ];
    let p5 = parts.drop_last();
    let p4 = p5.drop_last();
    let p3 = p4.drop_last();
    let p2 = p3.drop_last();
    let p1 = p2.drop_last();
    assert(joined(p1, dash()) == parts[0]);
    assert(joined(p2, dash()) == joined(p1, dash()) + dash() + parts[1]);
    assert(joined(p3, dash()) == joined(p2, dash()) + dash() + parts[2]);
    assert(joined(p4, dash()) == joined(p3, dash()) + dash() + parts[3]);
    assert(joined(p5, dash()) == joined(p4, dash()) + dash() + parts[4]);
    assert(joined(parts, dash()) == joined(p5, dash()) + dash() + parts[5]);
}

/// The label without a disk segment, written out piece by piece.
proof fn lemma_legacy_text_flat(cpu: nat, memory: nat, timeout: nat)
    ensures
        legacy_text(cpu, memory, timeout) == scheme_aws() + dash() + scheme_ecs() + dash() + (
        digits_of(cpu) + unit_cpu()) + dash() + (digits_of(memory) + unit_mem()) + dash() + (
        digits_of(timeout) + unit_minutes()),
{
    let parts = seq![
        scheme_aws(),
        scheme_ecs(),
        digits_of(cpu) + unit_cpu(),
        digits_of(memory) + unit_mem(),
        digits_of(timeout) + unit_minutes(),
    ];
    let p4 = parts.drop_last();
    let p3 = p4.drop_last();
    let p2 = p3.drop_last();
    let p1 = p2.drop_last();
    assert(joined(p1, dash()) == parts[0]);
    assert(joined(p2, dash()) == joined(p1, dash()) + dash() + parts[1]);
    assert(joined(p3, dash()) == joined(p2, dash()) + dash() + parts[2]);
    assert(joined(p4, dash()) == joined(p3, dash()) + dash() + parts[3]);
    assert(joined(parts, dash()) == joined(p4, dash()) + dash() + parts[4]);
}

/// A label with a disk segment decodes to the amounts it was written from.
pub proof fn lemma_generic_decodes(cpu: nat, memory: nat, disk: nat, timeout: nat)
    requires
        0 < cpu <= MAX_WHOLE_UNITS,
        0 < memory <= MAX_WHOLE_UNITS,
        disk <= MAX_QUANTITY,
        timeout <= MAX_QUANTITY,
    ensures
        decode_label(generic_text(cpu, memory, disk, timeout)) == Some(
            ResourceProfile {
                cpu: (cpu * MILLI) as i32,
                memory: (memory * MILLI) as i32,
                disk: disk as i32,
                timeout: timeout as i32,
            },
        ),
{
    let parts = seq![
        scheme_aws(),
        scheme_ecs(),
        digits_of(cpu) + unit_cpu(),
        digits_of(memory) + unit_mem(),
        digits_of(disk) + unit_disk(),
        digits_of(timeout) + unit_minutes(),
    ];
    lemma_unit_segment(cpu, unit_cpu(), MAX_WHOLE_UNITS as nat);
    lemma_unit_segment(memory, unit_mem(), MAX_WHOLE_UNITS as nat);
    lemma_unit_segment(disk, unit_disk(), MAX_QUANTITY as nat);
    lemma_unit_segment(timeout, unit_minutes(), MAX_QUANTITY as nat);
    assert forall|i: int| 0 <= i < parts.len() implies dash_free(#[trigger] parts[i]) by {}
    lemma_segments_of_joined(parts);
}

/// A label without a disk segment decodes to the amounts it was written
/// from, with the default disk.
pub proof fn lemma_legacy_decodes(cpu: nat, memory: nat, timeout: nat)
    requires
        0 < cpu <= MAX_WHOLE_UNITS,
        0 < memory <= MAX_WHOLE_UNITS,
        timeout <= MAX_QUANTITY,
    ensures
        decode_label(legacy_text(cpu, memory, timeout)) == Some(
            ResourceProfile {
                cpu: (cpu * MILLI) as i32,
                memory: (memory * MILLI) as i32,
                disk: DEFAULT_DISK,
                timeout: timeout as i32,
            },
        ),
{
    let parts = seq![
        scheme_aws(),
        scheme_ecs(),
        digits_of(cpu) + unit_cpu(),
        digits_of(memory) + unit_mem(),
        digits_of(timeout) + unit_minutes(),
    ];
    lemma_unit_segment(cpu, unit_cpu(), MAX_WHOLE_UNITS as nat);
    lemma_unit_segment(memory, unit_mem(), MAX_WHOLE_UNITS as nat);
    lemma_unit_segment(timeout, unit_minutes(), MAX_QUANTITY as nat);
    assert forall|i: int| 0 <= i < parts.len() implies dash_free(#[trigger] parts[i]) by {}
    lemma_segments_of_joined(parts);
}

/// Every profile that a label decodes to is well formed, with cpu and memory
/// in whole units.
pub proof fn lemma_decoded_is_whole(label: Seq<char>)
    ensures
        decode_label(label) matches Some(p) ==> p.whole(),
{
}

/// Decoding a label and writing the result as a canonical label gives a label
/// that decodes to the same profile. The texts may differ: the canonical
/// label always names the disk and has no leading zeros.
pub proof fn lemma_decode_reencode(label: Seq<char>)
    requires
        decode_label(label) is Some,
    ensures
        decode_label(canonical_text(decode_label(label).unwrap())) == decode_label(label),
{
    lemma_canonical_decodes(decode_label(label).unwrap());
}

/// The canonical label of a profile in whole units decodes to that profile.
pub proof fn lemma_canonical_decodes(profile: ResourceProfile)
    requires
        profile.whole(),
    ensures
        decode_label(canonical_text(profile)) == Some(profile),
{
    let cpu = (profile.cpu / MILLI) as nat;
    let memory = (profile.memory / MILLI) as nat;
    lemma_generic_decodes(cpu, memory, profile.disk as nat, profile.timeout as nat);
}

/// Every line of the compatibility table decodes, by the grammar alone, to
/// the profile that the line gives.
pub proof fn lemma_pinned_decodes(i: int)
    requires
        0 <= i < pinned().len(),
    ensures
        decode_label(pinned()[i].0) == Some(pinned()[i].1),
{
    reveal_with_fuel(digits_of, 2);
    if i == 0 {
        reveal_strlit("aws-ecs-16cpu-64mem-30m");
        lemma_legacy_text_flat(16, 64, 30);
        assert("aws-ecs-16cpu-64mem-30m"@ =~= legacy_text(16, 64, 30));
        lemma_legacy_decodes(16, 64, 30);
    } else if i == 1 {
        reveal_strlit("aws-ecs-16cpu-64mem-20disk-30m");
        lemma_generic_text_flat(16, 64, 20, 30);
        assert("aws-ecs-16cpu-64mem-20disk-30m"@ =~= generic_text(16, 64, 20, 30));
        lemma_generic_decodes(16, 64, 20, 30);
    } else if i == 2 {
        reveal_strlit("aws-ecs-16cpu-64mem-30disk-30m");
        lemma_generic_text_flat(16, 64, 30, 30);
        assert("aws-ecs-16cpu-64mem-30disk-30m"@ =~= generic_text(16, 64, 30, 30));
        lemma_generic_decodes(16, 64, 30, 30);
    } else if i == 3 {
        reveal_strlit("aws-ecs-16cpu-64mem-40disk-30m");
        lemma_generic_text_flat(16, 64, 40, 30);
        assert("aws-ecs-16cpu-64mem-40disk-30m"@ =~= generic_text(16, 64, 40, 30));
        lemma_generic_decodes(16, 64, 40, 30);
    } else if i == 4 {
        reveal_strlit("aws-ecs-16cpu-32mem-20disk-30m");
        lemma_generic_text_flat(16, 32, 20, 30);
        assert("aws-ecs-16cpu-32mem-20disk-30m"@ =~= generic_text(16, 32, 20, 30));
        lemma_generic_decodes(16, 32, 20, 30);
    } else if i == 5 {
        reveal_strlit("aws-ecs-16cpu-24mem-20disk-30m");
        lemma_generic_text_flat(16, 24, 20, 30);
        assert("aws-ecs-16cpu-24mem-20disk-30m"@ =~= generic_text(16, 24, 20, 30));
        lemma_generic_decodes(16, 24, 20, 30);
    } else if i == 6 {
        reveal_strlit("aws-ecs-16cpu-16mem-20disk-30m");
        lemma_generic_text_flat(16, 16, 20, 30);
        assert("aws-ecs-16cpu-16mem-20disk-30m"@ =~= generic_text(16, 16, 20, 30));
        lemma_generic_decodes(16, 16, 20, 30);
    } else if i == 7 {
        reveal_strlit("aws-ecs-12cpu-8mem-20disk-30m");
        lemma_generic_text_flat(12, 8, 20, 30);
        assert("aws-ecs-12cpu-8mem-20disk-30m"@ =~= generic_text(12, 8, 20, 30));
        lemma_generic_decodes(12, 8, 20, 30);
    } else {
        reveal_strlit("aws-ecs-8cpu-8mem-20disk-30m");
        lemma_generic_text_flat(8, 8, 20, 30);
        assert("aws-ecs-8cpu-8mem-20disk-30m"@ =~= generic_text(8, 8, 20, 30));
        lemma_generic_decodes(8, 8, 20, 30);
    }
}

/// What the table gives for a label is what the label decodes to.
pub proof fn lemma_pinned_profile_decodes(table: Seq<(Seq<char>, ResourceProfile)>, label: Seq<char>)
    requires
        forall|i: int| 0 <= i < table.len() ==> decode_label(#[trigger] table[i].0) == Some(table[i].1),
    ensures
        pinned_profile(table, label) matches Some(p) ==> decode_label(label) == Some(p),
    decreases table.len(),
{
    if table.len() > 0 && table[0].0 != label {
        let rest = table.skip(1);
        assert forall|i: int| 0 <= i < rest.len() implies decode_label(#[trigger] rest[i].0) == Some(
            rest[i].1,
        ) by {
            assert(rest[i] == table[i + 1]);
        }
        lemma_pinned_profile_decodes(rest, label);
    }
}

/// The compatibility table.
pub fn compatibility_table() -> (table: Vec<TableEntry>)
    ensures
        entries(table@) == pinned(),
{
    let mut table: Vec<TableEntry> = Vec::new();
    table.push(
        TableEntry {
            label: "aws-ecs-16cpu-64mem-30m",
            profile: ResourceProfile { cpu: 16384, memory: 65536, disk: 20, timeout: 30 },
        },
    );
    table.push(
        TableEntry {
            label: "aws-ecs-16cpu-64mem-20disk-30m",
            profile: ResourceProfile { cpu: 16384, memory: 65536, disk: 20, timeout: 30 },
        },
    );
    table.push(
        TableEntry {
            label: "aws-ecs-16cpu-64mem-30disk-30m",
            profile: ResourceProfile { cpu: 16384, memory: 65536, disk: 30, timeout: 30 },
        },
    );
    table.push(
        TableEntry {
            label: "aws-ecs-16cpu-64mem-40disk-30m",
            profile: ResourceProfile { cpu: 16384, memory: 65536, disk: 40, timeout: 30 },
        },
    );
    table.push(
        TableEntry {
            label: "aws-ecs-16cpu-32mem-20disk-30m",
            profile: ResourceProfile { cpu: 16384, memory: 32768, disk: 20, timeout: 30 },
        },
    );
    table.push(
        TableEntry {
            label: "aws-ecs-16cpu-24mem-20disk-30m",
            profile: ResourceProfile { cpu: 16384, memory: 24576, disk: 20, timeout: 30 },
        },
    );
    table.push(
        TableEntry {
            label: "aws-ecs-16cpu-16mem-20disk-30m",
            profile: ResourceProfile { cpu: 16384, memory: 16384, disk: 20, timeout: 30 },
        },
    );
    table.push(
        TableEntry {
            label: "aws-ecs-12cpu-8mem-20disk-30m",
            profile: ResourceProfile { cpu: 12288, memory: 8192, disk: 20, timeout: 30 },
        },
    );
    table.push(
        TableEntry {
            label: "aws-ecs-8cpu-8mem-20disk-30m",
            profile: ResourceProfile { cpu: 8192, memory: 8192, disk: 20, timeout: 30 },
        },
    );
    assert(entries(table@) =~= pinned());
    table
}

/// Reads the amount that `segment` states in `unit`.
fn parse_quantity(segment: &[char], unit: &[char], limit: u32) -> (r: Option<u32>)
    ensures
        match r {
            Some(v) => quantity(segment@, unit@, limit as nat) == Some(v as nat),
            None => quantity(segment@, unit@, limit as nat) is None,
        },
{
    if !ends_with(segment, unit) {
        return None;
    }
    let digits = slice_subrange(segment, 0, segment.len() - unit.len());
    assert(digits@ =~= segment@.take(segment@.len() - unit@.len()));
    parse_number(digits, limit)
}

/// Puts four amounts together as a profile.
fn assemble(cpu: Option<u32>, memory: Option<u32>, disk: Option<u32>, timeout: Option<u32>) -> (r:
    Option<ResourceProfile>)
    requires
        cpu matches Some(v) ==> v <= MAX_WHOLE_UNITS,
        memory matches Some(v) ==> v <= MAX_WHOLE_UNITS,
        disk matches Some(v) ==> v <= MAX_QUANTITY,
        timeout matches Some(v) ==> v <= MAX_QUANTITY,
    ensures
        r == sized(
            amount(cpu),
            amount(memory),
            amount(disk),
            amount(timeout),
        ),
{
    match (cpu, memory, disk, timeout) {
        (Some(c), Some(m), Some(d), Some(t)) => {
            if c == 0 || m == 0 {
                None
            } else {
                Some(
                    ResourceProfile {
                        cpu: c as i32 * MILLI,
                        memory: m as i32 * MILLI,
                        disk: d as i32,
                        timeout: t as i32,
                    },
                )
            }
        },
        _ => None,
    }
}

/// Decodes a label that is given character by character.
pub fn decode_chars(label: &[char]) -> (r: Option<ResourceProfile>)
    ensures
        r == decode_label(label@),
{
    let parts = split_segments(label);
    let n = parts.len();
    assert(contents(parts@).len() == n);
    if n != 5 && n != 6 {
        return None;
    }
    let aws = chars_of("aws");
    let ecs = chars_of("ecs");
    let cpu_unit = chars_of("cpu");
    let mem_unit = chars_of("mem");
    let disk_unit = chars_of("disk");
    let minutes_unit = chars_of("m");
    proof {
        reveal_strlit("aws");
        reveal_strlit("ecs");
        reveal_strlit("cpu");
        reveal_strlit("mem");
        reveal_strlit("disk");
        reveal_strlit("m");
        assert(aws@ =~= scheme_aws());
        assert(ecs@ =~= scheme_ecs());
        assert(cpu_unit@ =~= unit_cpu());
        assert(mem_unit@ =~= unit_mem());
        assert(disk_unit@ =~= unit_disk());
        assert(minutes_unit@ =~= unit_minutes());
        assert(contents(parts@)[0] == parts@[0]@);
        assert(contents(parts@)[1] == parts@[1]@);
        assert(contents(parts@)[2] == parts@[2]@);
        assert(contents(parts@)[3] == parts@[3]@);
        assert(contents(parts@)[4] == parts@[4]@);
    }
    if !same_text(parts[0].as_slice(), aws.as_slice()) || !same_text(
        parts[1].as_slice(),
        ecs.as_slice(),
    ) {
        return None;
    }
    let cpu = parse_quantity(parts[2].as_slice(), cpu_unit.as_slice(), MAX_WHOLE_UNITS);
    let memory = parse_quantity(parts[3].as_slice(), mem_unit.as_slice(), MAX_WHOLE_UNITS);
    if n == 6 {
        assert(contents(parts@)[5] == parts@[5]@);
        let disk = parse_quantity(parts[4].as_slice(), disk_unit.as_slice(), MAX_QUANTITY);
        let timeout = parse_quantity(parts[5].as_slice(), minutes_unit.as_slice(), MAX_QUANTITY);
        assemble(cpu, memory, disk, timeout)
    } else {
        let timeout = parse_quantity(parts[4].as_slice(), minutes_unit.as_slice(), MAX_QUANTITY);
        assemble(cpu, memory, Some(DEFAULT_DISK as u32), timeout)
    }
}

/// Looks a label up in the compatibility table.
pub fn lookup_chars(label: &[char]) -> (r: Option<ResourceProfile>)
    ensures
        r == pinned_profile(pinned(), label@),
{
    let table = compatibility_table();
    let n = table.len();
    let mut i: usize = 0;
    assert(pinned().skip(0) =~= pinned());
    while i < n
        invariant
            n == table@.len(),
            i <= n,
            entries(table@) == pinned(),
            pinned_profile(pinned(), label@) == pinned_profile(pinned().skip(i as int), label@),
        decreases n - i,
    {
        let entry = table[i];
        let text = chars_of(entry.label);
        proof {
            assert(entries(table@)[i as int] == (entry.label@, entry.profile));
            assert(pinned().skip(i as int)[0] == pinned()[i as int]);
            assert(pinned().skip(i as int).skip(1) =~= pinned().skip(i + 1));
        }
        if same_text(text.as_slice(), label) {
            return Some(entry.profile);
        }
        i += 1;
    }
    None
}

/// Decodes a label by the grammar alone.
pub fn parse_label(label: &str) -> (r: Option<ResourceProfile>)
    ensures
        r == decode_label(label@),
        r matches Some(p) ==> p.whole(),
{
    let chars = chars_of(label);
    proof {
        lemma_decoded_is_whole(label@);
    }
    decode_chars(chars.as_slice())
}

/// The profile that a label asks for, or `None` for a text that is no label.
/// The compatibility table is consulted first, the grammar after it; both
/// give the same, so the result is what the grammar alone decodes.
pub fn resolve_label(label: &str) -> (r: Option<ResourceProfile>)
    ensures
        r == decode_label(label@),
        r matches Some(p) ==> p.whole(),
{
    let chars = chars_of(label);
    proof {
        lemma_decoded_is_whole(label@);
    }
    match lookup_chars(chars.as_slice()) {
        Some(profile) => {
            proof {
                assert forall|i: int| 0 <= i < pinned().len() implies decode_label(
                    #[trigger] pinned()[i].0,
                ) == Some(pinned()[i].1) by {
                    lemma_pinned_decodes(i);
                }
                lemma_pinned_profile_decodes(pinned(), label@);
            }
            Some(profile)
        },
        None => decode_chars(chars.as_slice()),
    }
}

/// Writes a profile as its canonical label.
pub fn canonical_label(profile: &ResourceProfile) -> (r: String)
    requires
        profile.wf(),
    ensures
        r@ == canonical_text(*profile),
{
    let mut out = String::new();
    proof {
        reveal_strlit("aws-ecs-");
        reveal_strlit("cpu-");
        reveal_strlit("mem-");
        reveal_strlit("disk-");
        reveal_strlit("m");
        lemma_generic_text_flat(
            (profile.cpu / MILLI) as nat,
            (profile.memory / MILLI) as nat,
            profile.disk as nat,
            profile.timeout as nat,
        );
    }
    out.append("aws-ecs-");
    append_digits(&mut out, (profile.cpu / MILLI) as u32);
    out.append("cpu-");
    append_digits(&mut out, (profile.memory / MILLI) as u32);
    out.append("mem-");
    append_digits(&mut out, profile.disk as u32);
    out.append("disk-");
    append_digits(&mut out, profile.timeout as u32);
    out.append("m");
    assert(out@ =~= canonical_text(*profile));
    out
}

} // verus!
