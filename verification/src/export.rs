//! What an export of a frame sequence writes: which frames, and under which
//! file names. Rendering and writing the files is the caller's.

use vstd::prelude::*;
use crate::text::{push_char, digits_value, all_digits, is_digit};

verus! {

/// The character of a decimal digit.
pub open spec fn digit_char(d: int) -> char {
    if d == 0 {
        '0'
    } else if d == 1 {
        '1'
    } else if d == 2 {
        '2'
    } else if d == 3 {
        '3'
    } else if d == 4 {
        '4'
    } else if d == 5 {
        '5'
    } else if d == 6 {
        '6'
    } else if d == 7 {
        '7'
    } else if d == 8 {
        '8'
    } else {
        '9'
    }
}

/// The decimal digits of `n`, most significant first, without leading
/// zeros.
pub open spec fn decimal(n: nat) -> Seq<char>
    decreases n,
{
    if n < 10 {
        seq![digit_char(n as int)]
    } else {
        decimal(n / 10).push(digit_char((n % 10) as int))
    }
}

/// `n` in decimal, padded on the left with zeros to at least `width`
/// digits.
pub open spec fn zero_padded(n: nat, width: nat) -> Seq<char> {
    let d = decimal(n);
    if d.len() < width {
        Seq::new((width - d.len()) as nat, |i: int| '0') + d
    } else {
        d
    }
}

fn digit(d: u32) -> (c: char)
    requires
        d < 10,
    ensures
        c == digit_char(d as int),
{
    match d {
        0 => '0',
        1 => '1',
        2 => '2',
        3 => '3',
        4 => '4',
        5 => '5',
        6 => '6',
        7 => '7',
        8 => '8',
        _ => '9',
    }
}

fn push_decimal(out: &mut String, n: u32)
    ensures
        final(out)@ == old(out)@ + decimal(n as nat),
    decreases n,
{
    if n >= 10 {
        push_decimal(out, n / 10);
    }
    push_char(out, digit(n % 10));
    proof {
        if n < 10 {
            assert(n % 10 == n);
        }
    }
}

/// The file name of the frame written at position `index`:
/// `frame_NNNNNN.png`, the number in at least six digits.
pub open spec fn frame_file_name_spec(index: u32) -> Seq<char> {
    "frame_"@ + zero_padded(index as nat, 6) + ".png"@
}

/// Name the file of the frame written at position `index`.
pub fn frame_file_name(index: u32) -> (name: String)
    ensures
        name@ == frame_file_name_spec(index),
{
    let mut digits = String::new();
    push_decimal(&mut digits, index);
    let mut name = String::new();
    name.append("frame_");
    let mut k: usize = 0;
    let n = digits.unicode_len();
    let pad: usize = if n < 6 { 6 - n } else { 0 };
    while k < pad
        invariant
            k <= pad,
            name@ == "frame_"@ + Seq::new(k as nat, |i: int| '0'),
        decreases pad - k,
    {
        push_char(&mut name, '0');
        assert(name@ =~= "frame_"@ + Seq::new((k + 1) as nat, |i: int| '0'));
        k = k + 1;
    }
    name.append(digits.as_str());
    name.append(".png");
    assert(digits@ == decimal(index as nat));
    proof {
        if decimal(index as nat).len() < 6 {
            assert(name@ =~= "frame_"@ + zero_padded(index as nat, 6) + ".png"@);
        } else {
            assert(Seq::new(0 as nat, |i: int| '0') =~= Seq::<char>::empty());
            assert(name@ =~= "frame_"@ + zero_padded(index as nat, 6) + ".png"@);
        }
    }
    name
}

proof fn lemma_digit_char(d: int)
    requires
        0 <= d < 10,
    ensures
        is_digit(digit_char(d)),
        digit_char(d) as int - '0' as int == d,
{
}

proof fn lemma_decimal_value(n: nat)
    ensures
        all_digits(decimal(n)),
        digits_value(decimal(n)) == n,
        decimal(n).len() >= 1,
    decreases n,
{
    if n < 10 {
        lemma_digit_char(n as int);
        assert(decimal(n).drop_last() =~= Seq::<char>::empty());
        assert(digits_value(Seq::<char>::empty()) == 0);
        assert(decimal(n).last() == digit_char(n as int));
        assert(digits_value(decimal(n)) == n);
    } else {
        lemma_decimal_value(n / 10);
        lemma_digit_char((n % 10) as int);
        let d = decimal(n);
        assert(d.drop_last() =~= decimal(n / 10));
        assert(d.last() == digit_char((n % 10) as int));
        assert(digits_value(d) == digits_value(decimal(n / 10)) * 10 + (n % 10));
        assert(n == (n / 10) * 10 + n % 10);
        assert forall|i: int| 0 <= i < d.len() implies is_digit(#[trigger] d[i]) by {
            if i < d.len() - 1 {
                assert(d[i] == decimal(n / 10)[i]);
            }
        }
    }
}

proof fn lemma_leading_zeros(z: Seq<char>, b: Seq<char>)
    requires
        forall|i: int| 0 <= i < z.len() ==> #[trigger] z[i] == '0',
    ensures
        digits_value(z + b) == digits_value(b),
    decreases b.len(),
{
    if b.len() == 0 {
        assert(z + b =~= z);
        lemma_zeros_value(z);
    } else {
        lemma_leading_zeros(z, b.drop_last());
        assert((z + b).drop_last() =~= z + b.drop_last());
        assert((z + b).last() == b.last());
    }
}

proof fn lemma_zeros_value(z: Seq<char>)
    requires
        forall|i: int| 0 <= i < z.len() ==> #[trigger] z[i] == '0',
    ensures
        digits_value(z) == 0,
    decreases z.len(),
{
    if z.len() > 0 {
        let p = z.drop_last();
        assert(forall|i: int| 0 <= i < p.len() ==> p[i] == z[i]);
        lemma_zeros_value(p);
        assert(z[z.len() - 1] == '0');
    }
}

/// The digits of a frame file name spell the frame's position back.
pub open spec fn name_digits(name: Seq<char>) -> Seq<char> {
    name.subrange(6, name.len() - 4)
}

/// The number in a frame's file name is its position: the characters
/// between `frame_` and `.png` are decimal digits whose value is `index`.
pub proof fn lemma_frame_name_number(index: u32)
    ensures
        all_digits(name_digits(frame_file_name_spec(index))),
        digits_value(name_digits(frame_file_name_spec(index))) == index,
{
    reveal_strlit("frame_");
    reveal_strlit(".png");
    lemma_decimal_value(index as nat);
    let d = decimal(index as nat);
    let zp = zero_padded(index as nat, 6);
    let name = frame_file_name_spec(index);
    assert(name_digits(name) =~= zp);
    if d.len() < 6 {
        let z = Seq::new((6 - d.len()) as nat, |i: int| '0');
        assert(zp == z + d);
        lemma_leading_zeros(z, d);
        assert forall|i: int| 0 <= i < zp.len() implies is_digit(#[trigger] zp[i]) by {
            if i < z.len() {
                assert(zp[i] == '0');
            } else {
                assert(zp[i] == d[i - z.len()]);
            }
        }
    }
}

/// Every frame of an export is written to a file of its own: distinct
/// entries of the plan get distinct file names.
pub proof fn lemma_export_names_distinct(
    start: Option<u32>,
    end: Option<u32>,
    total: u32,
    reindex: bool,
    i: int,
    j: int,
)
    requires
        0 <= i < export_plan_spec(start, end, total, reindex).len(),
        0 <= j < export_plan_spec(start, end, total, reindex).len(),
        i != j,
    ensures
        frame_file_name_spec(export_plan_spec(start, end, total, reindex)[i].1)
            != frame_file_name_spec(export_plan_spec(start, end, total, reindex)[j].1),
{
    let p = export_plan_spec(start, end, total, reindex);
    let a = p[i].1;
    let b = p[j].1;
    assert(a != b);
    lemma_frame_name_number(a);
    lemma_frame_name_number(b);
}

/// The frames of an export: from `start` (0 when absent) up to but not
/// including `end` (the frame count when absent), never past the last frame,
/// each with the position it is written at: its own number, or its distance
/// from the first exported frame when renumbering.
pub open spec fn export_plan_spec(start: Option<u32>, end: Option<u32>, total: u32, reindex: bool) -> Seq<(u32, u32)> {
    let s = match start {
        Some(v) => v as int,
        None => 0,
    };
    let e0 = match end {
        Some(v) => v as int,
        None => total as int,
    };
    let e = if e0 < total { e0 } else { total as int };
    let n = if e > s { e - s } else { 0 };
    Seq::new(n as nat, |i: int| ((s + i) as u32, if reindex { i as u32 } else { (s + i) as u32 }))
}

/// List the frames of an export and the position each is written at.
pub fn export_plan(start_frame: Option<u32>, end_frame: Option<u32>, total_frames: u32, reindex: bool) -> (plan: Vec<(u32, u32)>)
    ensures
        plan@ == export_plan_spec(start_frame, end_frame, total_frames, reindex),
{
    let start = match start_frame {
        Some(v) => v,
        None => 0,
    };
    let end0 = match end_frame {
        Some(v) => v,
        None => total_frames,
    };
    let end = if end0 < total_frames { end0 } else { total_frames };
    let mut plan: Vec<(u32, u32)> = Vec::new();
    let mut f = start;
    while f < end
        invariant
            start <= f,
            f <= end || start >= end,
            start >= end ==> f == start,
            end <= total_frames,
            plan@ == Seq::new((f - start) as nat, |i: int| ((start + i) as u32, if reindex { i as u32 } else { (start + i) as u32 })),
        decreases end - f,
    {
        let idx = if reindex { f - start } else { f };
        plan.push((f, idx));
        assert(plan@ =~= Seq::new((f + 1 - start) as nat, |i: int| ((start + i) as u32, if reindex { i as u32 } else { (start + i) as u32 })));
        f = f + 1;
    }
    assert(plan@ =~= export_plan_spec(start_frame, end_frame, total_frames, reindex));
    plan
}

} // verus!
