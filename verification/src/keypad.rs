//! The keypad scan engine for a 4x4 key matrix.
//!
//! A scan drives the four column lines one after the other and samples the
//! four row lines each time. Lines are active when low. The engine says which
//! levels to drive and what a sample means; the caller moves the levels.

use vstd::prelude::*;

verus! {

/// Number of column lines, which the scan drives.
pub const COLUMNS: u8 = 4;

/// Number of row lines, which the scan samples.
pub const ROWS: u8 = 4;

/// Microseconds to wait between driving a column and sampling the rows.
pub const SETTLE_MICROS: u32 = 5;

/// The symbol of the key that joins row line `row` and column line `column`,
/// or `None` where the matrix has no such line.
pub open spec fn key_at_spec(row: int, column: int) -> Option<char> {
    if column == 0 {
        if row == 0 {
            Some('0')
        } else if row == 1 {
            Some('1')
        } else if row == 2 {
            Some('4')
        } else if row == 3 {
            Some('7')
        } else {
            None
        }
    } else if column == 1 {
        if row == 0 {
            Some('.')
        } else if row == 1 {
            Some('2')
        } else if row == 2 {
            Some('5')
        } else if row == 3 {
            Some('8')
        } else {
            None
        }
    } else if column == 2 {
        if row == 0 {
            Some('e')
        } else if row == 1 {
            Some('3')
        } else if row == 2 {
            Some('6')
        } else if row == 3 {
            Some('9')
        } else {
            None
        }
    } else if column == 3 {
        if row == 0 {
            Some('p')
        } else if row == 1 {
            Some('m')
        } else if row == 2 {
            Some('x')
        } else if row == 3 {
            Some('d')
        } else {
            None
        }
    } else {
        None
    }
}

/// Whether `key` is one of the sixteen symbols on the keypad.
pub open spec fn is_key_symbol(key: char) -> bool {
    exists|row: int, column: int|
        0 <= row < 4 && 0 <= column < 4 && key_at_spec(row, column) == Some(key)
}

/// Whether line `line` is high in the four-bit pattern `pattern`.
pub open spec fn line_high(pattern: u8, line: u8) -> bool {
    line < 4 && (pattern >> line) & 1 == 1
}

/// The levels of the four column lines while `column` is driven: that line
/// low, the others high; bit `i` is the level of line `i`.
pub open spec fn drive_pattern_spec(column: u8) -> u8 {
    if column == 0 {
        0b1110
    } else if column == 1 {
        0b1101
    } else if column == 2 {
        0b1011
    } else if column == 3 {
        0b0111
    } else {
        0b1111
    }
}

/// The lowest row line that is active in a sample, in which bit `i` is set
/// when row line `i` was read active.
pub open spec fn first_active_row(rows: u8) -> Option<int> {
    if rows & 0b0001 != 0 {
        Some(0int)
    } else if rows & 0b0010 != 0 {
        Some(1int)
    } else if rows & 0b0100 != 0 {
        Some(2int)
    } else if rows & 0b1000 != 0 {
        Some(3int)
    } else {
        None
    }
}

/// The key that a sample shows while `column` is driven: the one on the
/// lowest active row, if any row is active.
pub open spec fn decode_spec(column: u8, rows: u8) -> Option<char> {
    match first_active_row(rows) {
        Some(row) => key_at_spec(row, column as int),
        None => None,
    }
}

/// What a whole scan reports: the key of the first column, in the order
/// 0, 1, 2, 3, whose sample shows one. `samples[c]` is the sample taken
/// while column `c` was driven.
pub open spec fn scan_spec(samples: Seq<u8>) -> Option<char>
    recommends
        samples.len() == 4,
{
    if decode_spec(0, samples[0]) is Some {
        decode_spec(0, samples[0])
    } else if decode_spec(1, samples[1]) is Some {
        decode_spec(1, samples[1])
    } else if decode_spec(2, samples[2]) is Some {
        decode_spec(2, samples[2])
    } else {
        decode_spec(3, samples[3])
    }
}

/// What comes next in a scan.
#[derive(Clone, Copy, Debug, PartialEq, Eq, Structural)]
pub enum ScanStep {
    /// Drive this column, wait for the lines to settle, and sample the rows.
    Drive(u8),
    /// The scan is over, with this key or with none.
    Done(Option<char>),
}

/// What the scan does after the sample `rows` was taken with `column` driven.
pub open spec fn scan_advance_spec(column: u8, rows: u8) -> ScanStep {
    match decode_spec(column, rows) {
        Some(key) => ScanStep::Done(Some(key)),
        None => if column < 3 {
            ScanStep::Drive((column + 1) as u8)
        } else {
            ScanStep::Done(None)
        },
    }
}

/// The symbol of the key that joins row line `row` and column line `column`.
pub fn key_at(row: u8, column: u8) -> (key: Option<char>)
    ensures
        key == key_at_spec(row as int, column as int),
        key is Some <==> row < ROWS && column < COLUMNS,
{
    if row >= ROWS || column >= COLUMNS {
        return None;
    }
    let keys: [[char; 4]; 4] = [
        ['0', '1', '4', '7'],
        ['.', '2', '5', '8'],
        ['e', '3', '6', '9'],
        ['p', 'm', 'x', 'd'],
    ];
    Some(keys[column as usize][row as usize])
}

/// The levels to put on the four column lines while `column` is driven.
pub fn drive_pattern(column: u8) -> (pattern: u8)
    ensures
        pattern == drive_pattern_spec(column),
        forall|line: u8| line < 4 ==> (#[trigger] line_high(pattern, line) <==> line != column),
{
    let pattern: u8 = if column == 0 {
        0b1110
    } else if column == 1 {
        0b1101
    } else if column == 2 {
        0b1011
    } else if column == 3 {
        0b0111
    } else {
        0b1111
    };
    assert forall|line: u8| line < 4 implies (#[trigger] line_high(pattern, line) <==> line
        != column) by {
        assert(line < 4 && column == 0 && pattern == 0b1110 ==> ((pattern >> line) & 1 == 1 <==> line != 0)) by (bit_vector);
        assert(line < 4 && column == 1 && pattern == 0b1101 ==> ((pattern >> line) & 1 == 1 <==> line != 1)) by (bit_vector);
        assert(line < 4 && column == 2 && pattern == 0b1011 ==> ((pattern >> line) & 1 == 1 <==> line != 2)) by (bit_vector);
        assert(line < 4 && column == 3 && pattern == 0b0111 ==> ((pattern >> line) & 1 == 1 <==> line != 3)) by (bit_vector);
        assert(line < 4 && pattern == 0b1111 ==> (pattern >> line) & 1 == 1) by (bit_vector);
    }
    pattern
}

/// The level of one column line in a drive pattern: `true` for high.
pub fn line_level(pattern: u8, line: u8) -> (high: bool)
    ensures
        high == line_high(pattern, line),
{
    line < 4 && (pattern >> line) & 1 == 1
}

/// The sample that four row readings make: bit `i` is set exactly when row
/// line `i` was read low, and the upper four bits are clear.
pub fn sample_of(row0_low: bool, row1_low: bool, row2_low: bool, row3_low: bool) -> (rows: u8)
    ensures
        rows & 0xF0 == 0,
        (rows & 0b0001 != 0) == row0_low,
        (rows & 0b0010 != 0) == row1_low,
        (rows & 0b0100 != 0) == row2_low,
        (rows & 0b1000 != 0) == row3_low,
        is_idle(rows) <==> !row0_low && !row1_low && !row2_low && !row3_low,
{
    let bit0: u8 = if row0_low {
        0b0001
    } else {
        0
    };
    let bit1: u8 = if row1_low {
        0b0010
    } else {
        0
    };
    let bit2: u8 = if row2_low {
        0b0100
    } else {
        0
    };
    let bit3: u8 = if row3_low {
        0b1000
    } else {
        0
    };
    let rows: u8 = bit0 | bit1 | bit2 | bit3;
    assert((bit0 == 0 || bit0 == 0b0001) && (bit1 == 0 || bit1 == 0b0010) && (bit2 == 0 || bit2
        == 0b0100) && (bit3 == 0 || bit3 == 0b1000) && rows == bit0 | bit1 | bit2 | bit3 ==> rows
        & 0xF0 == 0 && (rows & 0b0001 != 0 <==> bit0 != 0) && (rows & 0b0010 != 0 <==> bit1 != 0)
        && (rows & 0b0100 != 0 <==> bit2 != 0) && (rows & 0b1000 != 0 <==> bit3 != 0) && (rows
        & 0x0F == 0 <==> bit0 == 0 && bit1 == 0 && bit2 == 0 && bit3 == 0)) by (bit_vector);
    rows
}

/// The key that the sample `rows` shows while `column` is driven.
pub fn decode(column: u8, rows: u8) -> (key: Option<char>)
    ensures
        key == decode_spec(column, rows),
{
    if rows & 0b0001 != 0 {
        key_at(0, column)
    } else if rows & 0b0010 != 0 {
        key_at(1, column)
    } else if rows & 0b0100 != 0 {
        key_at(2, column)
    } else if rows & 0b1000 != 0 {
        key_at(3, column)
    } else {
        None
    }
}

/// The column that a scan drives first.
pub fn scan_begin() -> (step: ScanStep)
    ensures
        step == ScanStep::Drive(0),
{
    ScanStep::Drive(0)
}

/// Takes the sample `rows`, read while `column` was driven, and says how the
/// scan goes on: it ends with the key that the sample shows, or moves to the
/// next column, or ends without a key after the last column.
pub fn scan_advance(column: u8, rows: u8) -> (step: ScanStep)
    ensures
        step == scan_advance_spec(column, rows),
{
    match decode(column, rows) {
        Some(key) => ScanStep::Done(Some(key)),
        None => if column < 3 {
            ScanStep::Drive(column + 1)
        } else {
            ScanStep::Done(None)
        },
    }
}

/// The result of a whole scan, from the four samples that the four columns
/// gave: the first key found in column order, or `None` on an idle keypad.
pub fn scan_once(samples: [u8; 4]) -> (key: Option<char>)
    ensures
        key == scan_spec(samples@),
{
    let mut column: u8 = 0;
    loop
        invariant
            column < 4,
            forall|c: u8| c < column ==> decode_spec(c, #[trigger] samples@[c as int]) is None,
        decreases 4 - column,
    {
        match scan_advance(column, samples[column as usize]) {
            ScanStep::Done(key) => {
                return key;
            },
            ScanStep::Drive(next) => {
                column = next;
            },
        }
    }
}

/// Where the wait for a keypress stands.
#[derive(Clone, Copy, Debug, PartialEq, Eq, Structural)]
pub enum Wait {
    /// No key has been seen since the last one was released.
    Released,
    /// This key was seen, and the keypad has not been idle since.
    Held(char),
}

/// How the wait goes on after one scan, and the key that it reports.
///
/// A key is taken when a scan first shows one, and reported when a later scan
/// shows none. Whatever the scans in between show counts as the key still held.
pub open spec fn wait_advance_spec(wait: Wait, scan: Option<char>) -> (Wait, Option<char>) {
    match wait {
        Wait::Released => match scan {
            Some(key) => (Wait::Held(key), None),
            None => (Wait::Released, None),
        },
        Wait::Held(key) => match scan {
            Some(_) => (Wait::Held(key), None),
            None => (Wait::Released, Some(key)),
        },
    }
}

/// Whether `scans` holds a keypress of `key` that begins at index `press` and
/// ends at index `release`: idle scans, then the key, then scans that all show
/// a key, then an idle scan.
pub open spec fn is_keypress(
    scans: Seq<Option<char>>,
    press: int,
    release: int,
    key: char,
) -> bool {
    &&& 0 <= press < release < scans.len()
    &&& forall|i: int| 0 <= i < press ==> (#[trigger] scans[i]) is None
    &&& scans[press] == Some(key)
    &&& forall|i: int| press < i < release ==> (#[trigger] scans[i]) is Some
    &&& scans[release] is None
}

/// Takes the result of one scan and says how the wait goes on, and which key
/// it reports, if the scan completes a keypress.
pub fn wait_advance(wait: Wait, scan: Option<char>) -> (next: (Wait, Option<char>))
    ensures
        next == wait_advance_spec(wait, scan),
{
    match wait {
        Wait::Released => match scan {
            Some(key) => (Wait::Held(key), None),
            None => (Wait::Released, None),
        },
        Wait::Held(key) => match scan {
            Some(_) => (Wait::Held(key), None),
            None => (Wait::Released, Some(key)),
        },
    }
}

/// The first keypress in a run of scan results, with the number of scans up
/// to and including the one that showed the release; `None` where the run
/// ends before a key was pressed and released.
pub fn wait_for_keypress(scans: &[Option<char>]) -> (found: Option<(char, usize)>)
    ensures
        found is Some ==> exists|press: int, release: int|
            release + 1 == found.unwrap().1 && #[trigger] is_keypress(
                scans@,
                press,
                release,
                found.unwrap().0,
            ),
        found is None ==> forall|press: int, release: int, key: char|
            !is_keypress(scans@, press, release, key),
{
    let mut wait = Wait::Released;
    let ghost mut pressed: int = 0;
    let mut i: usize = 0;
    while i < scans.len()
        invariant
            i <= scans@.len(),
            wait is Released ==> forall|j: int| 0 <= j < i ==> (#[trigger] scans@[j]) is None,
            wait matches Wait::Held(key) ==> {
                &&& 0 <= pressed < i
                &&& forall|j: int| 0 <= j < pressed ==> (#[trigger] scans@[j]) is None
                &&& scans@[pressed] == Some(key)
                &&& forall|j: int| pressed < j < i ==> (#[trigger] scans@[j]) is Some
            },
        decreases scans@.len() - i,
    {
        let (next, reported) = wait_advance(wait, scans[i]);
        match reported {
            Some(key) => {
                let found = Some((key, i + 1));
                assert(is_keypress(scans@, pressed, found.unwrap().1 - 1, found.unwrap().0));
                return found;
            },
            None => {
                proof {
                    if wait is Released && next is Held {
                        pressed = i as int;
                    }
                }
                wait = next;
            },
        }
        i += 1;
    }
    assert forall|press: int, release: int, key: char| !is_keypress(
        scans@,
        press,
        release,
        key,
    ) by {
        if is_keypress(scans@, press, release, key) {
            if wait is Released {
                assert(scans@[press] is None);
            } else {
                if press < pressed {
                    assert(scans@[press] is None);
                } else if press > pressed {
                    assert(scans@[pressed] is None);
                } else {
                    assert(scans@[release] is Some);
                }
            }
        }
    }
    None
}

/// Whether a sample shows no row line active.
pub open spec fn is_idle(rows: u8) -> bool {
    rows & 0x0F == 0
}

/// The result of a scan that is run step by step from `column` on.
pub open spec fn scan_from(column: u8, samples: Seq<u8>) -> Option<char>
    recommends
        samples.len() == 4,
    decreases 4 - column,
{
    if column >= 4 {
        None
    } else {
        match scan_advance_spec(column, samples[column as int]) {
            ScanStep::Done(key) => key,
            ScanStep::Drive(next) => scan_from(next, samples),
        }
    }
}

/// The keys reported while a run of scan results is taken in, one by one,
/// and where the wait stands after them.
pub open spec fn wait_run(wait: Wait, scans: Seq<Option<char>>) -> (Wait, Seq<char>)
    decreases scans.len(),
{
    if scans.len() == 0 {
        (wait, Seq::empty())
    } else {
        let (before, reported) = wait_run(wait, scans.drop_last());
        let (after, key) = wait_advance_spec(before, scans.last());
        (
            after,
            match key {
                Some(key) => reported.push(key),
                None => reported,
            },
        )
    }
}

/// A sample is idle exactly when it shows no key, whichever column is driven.
pub proof fn lemma_idle_phase(column: u8, rows: u8)
    requires
        column < 4,
    ensures
        is_idle(rows) <==> decode_spec(column, rows) is None,
        is_idle(rows) ==> scan_advance_spec(column, rows) == if column < 3 {
            ScanStep::Drive((column + 1) as u8)
        } else {
            ScanStep::Done(None)
        },
{
    assert(rows & 0x0F == 0 <==> (rows & 0b0001 == 0 && rows & 0b0010 == 0 && rows & 0b0100 == 0
        && rows & 0b1000 == 0)) by (bit_vector);
}

/// On an idle keypad none of the four column phases shows a key, and the scan
/// reports none.
pub proof fn lemma_idle_scan(samples: Seq<u8>)
    requires
        samples.len() == 4,
        forall|column: int| 0 <= column < 4 ==> is_idle(#[trigger] samples[column]),
    ensures
        forall|column: u8| column < 4 ==> decode_spec(column, #[trigger] samples[column as int]) is None,
        scan_spec(samples) is None,
        scan_from(0, samples) is None,
{
    assert forall|column: u8| column < 4 implies decode_spec(
        column,
        #[trigger] samples[column as int],
    ) is None by {
        lemma_idle_phase(column, samples[column as int]);
    }
    lemma_scan_steps(samples);
}

/// Running the scan step by step from the first column gives what the scan
/// reports.
pub proof fn lemma_scan_steps(samples: Seq<u8>)
    requires
        samples.len() == 4,
    ensures
        scan_from(0, samples) == scan_spec(samples),
{
    reveal_with_fuel(scan_from, 5);
}

/// A scan reports a key exactly when some sample is not idle, and what it
/// reports is one of the sixteen symbols.
pub proof fn lemma_scan_reports_key(samples: Seq<u8>)
    requires
        samples.len() == 4,
    ensures
        scan_spec(samples) is None <==> forall|column: int|
            0 <= column < 4 ==> is_idle(#[trigger] samples[column]),
        scan_spec(samples) matches Some(key) ==> is_key_symbol(key),
{
    lemma_idle_phase(0, samples[0]);
    lemma_idle_phase(1, samples[1]);
    lemma_idle_phase(2, samples[2]);
    lemma_idle_phase(3, samples[3]);
    if scan_spec(samples) is Some {
        let key = scan_spec(samples).unwrap();
        let column: int = if decode_spec(0, samples[0]) is Some {
            0
        } else if decode_spec(1, samples[1]) is Some {
            1
        } else if decode_spec(2, samples[2]) is Some {
            2
        } else {
            3
        };
        let row = first_active_row(samples[column]).unwrap();
        assert(key_at_spec(row, column) == Some(key));
    }
}

/// With one key held and nothing else, the scan reports that key.
pub proof fn lemma_single_key(samples: Seq<u8>, row: u8, column: u8)
    requires
        samples.len() == 4,
        row < 4,
        column < 4,
        samples[column as int] == 1u8 << row,
        forall|other: int| 0 <= other < 4 && other != column ==> is_idle(#[trigger] samples[other]),
    ensures
        scan_spec(samples) == key_at_spec(row as int, column as int),
{
    let rows = samples[column as int];
    assert(row < 4 && rows == 1u8 << row ==> (rows & 0b0001 != 0 <==> row == 0) && (rows & 0b0010
        != 0 <==> row == 1) && (rows & 0b0100 != 0 <==> row == 2) && (rows & 0b1000 != 0 <==> row
        == 3)) by (bit_vector);
    assert(first_active_row(rows) == Some(row as int));
    assert forall|other: u8| other < 4 && other != column implies decode_spec(
        other,
        #[trigger] samples[other as int],
    ) is None by {
        lemma_idle_phase(other, samples[other as int]);
    }
    assert(decode_spec(column, samples[column as int]) == key_at_spec(row as int, column as int));
}

/// Different places of the matrix carry different symbols.
pub proof fn lemma_keys_distinct(row: int, column: int, other_row: int, other_column: int)
    requires
        0 <= row < 4,
        0 <= column < 4,
        0 <= other_row < 4,
        0 <= other_column < 4,
        key_at_spec(row, column) == key_at_spec(other_row, other_column),
    ensures
        row == other_row,
        column == other_column,
{
}

/// A run of scans holds at most one keypress that starts from idle: where it
/// begins, where it ends and which key it is are fixed by the run.
pub proof fn lemma_keypress_unique(
    scans: Seq<Option<char>>,
    press: int,
    release: int,
    key: char,
    other_press: int,
    other_release: int,
    other_key: char,
)
    requires
        is_keypress(scans, press, release, key),
        is_keypress(scans, other_press, other_release, other_key),
    ensures
        press == other_press,
        release == other_release,
        key == other_key,
{
    if press < other_press {
        assert(scans[press] is None);
    } else if other_press < press {
        assert(scans[other_press] is None);
    } else if release < other_release {
        assert(scans[release] is Some);
    } else if other_release < release {
        assert(scans[other_release] is Some);
    }
}

/// While a keypress is under way nothing is reported: neither before the key
/// goes down nor while it is held.
pub proof fn lemma_keypress_silent(
    scans: Seq<Option<char>>,
    press: int,
    release: int,
    key: char,
    n: int,
)
    requires
        is_keypress(scans, press, release, key),
        0 <= n <= release,
    ensures
        wait_run(Wait::Released, scans.take(n)) == (
            if n <= press {
                Wait::Released
            } else {
                Wait::Held(key)
            },
            Seq::<char>::empty(),
        ),
    decreases n,
{
    if n > 0 {
        lemma_keypress_silent(scans, press, release, key, n - 1);
        assert(scans.take(n).drop_last() =~= scans.take(n - 1));
        assert(scans.take(n).last() == scans[n - 1]);
    }
}

/// A keypress is reported once, by the scan that shows the release, and it is
/// the key that went down first that is reported.
pub proof fn lemma_keypress_reported(
    scans: Seq<Option<char>>,
    press: int,
    release: int,
    key: char,
)
    requires
        is_keypress(scans, press, release, key),
    ensures
        wait_run(Wait::Released, scans.take(release)).1 == Seq::<char>::empty(),
        wait_run(Wait::Released, scans.take(release + 1)) == (Wait::Released, seq![key]),
{
    lemma_keypress_silent(scans, press, release, key, release);
    assert(scans.take(release + 1).drop_last() =~= scans.take(release));
    assert(scans.take(release + 1).last() == scans[release]);
    assert(Seq::<char>::empty().push(key) =~= seq![key]);
}

} // verus!
