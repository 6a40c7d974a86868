//! Display sizing (scale factors, fixed heights, the derived width), icon
//! path resolution, and the bounded icon-retry state machine.

use vstd::prelude::*;
use vstd::string::*;
use crate::strutil::{all_digits, all_digits_check, digits_val, digits_value};

verus! {

/// Fixed number of candidate draws attempted before giving up when icons
/// are missing for drawn candidates.
pub const MAX_RETRIES: u32 = 10;

/// Outcome of one probe of the retry loop.
#[derive(Clone, Copy, Debug, PartialEq, Eq, Structural)]
pub enum StepOutcome {
    /// The icon exists: render it and stop.
    Render,
    /// The icon is missing but attempts remain: draw a fresh candidate.
    Retry,
    /// The icon is missing and the retry bound is reached: fail.
    Exhausted,
}

/// One transition of the presenter state machine: `attempts_done` probes
/// have already failed, and the current candidate's icon probe returned
/// `icon_exists`.
pub fn presenter_step(attempts_done: u32, icon_exists: bool) -> (r: StepOutcome)
    requires
        attempts_done < MAX_RETRIES,
    ensures
        icon_exists ==> r == StepOutcome::Render,
        !icon_exists && attempts_done + 1 == MAX_RETRIES ==> r == StepOutcome::Exhausted,
        !icon_exists && attempts_done + 1 < MAX_RETRIES ==> r == StepOutcome::Retry,
{
    if icon_exists {
        StepOutcome::Render
    } else if attempts_done + 1 >= MAX_RETRIES {
        StepOutcome::Exhausted
    } else {
        StepOutcome::Retry
    }
}

/// Some probe among attempts `k`, `k + 1`, ... up to the retry bound
/// reports an existing icon.
pub open spec fn success_within(probes: Seq<bool>, k: int) -> bool
    decreases MAX_RETRIES - k,
{
    if k >= MAX_RETRIES {
        false
    } else if probes[k] {
        true
    } else {
        success_within(probes, k + 1)
    }
}

/// Number of probes the loop performs from attempt `k` on.
pub open spec fn attempts_from(probes: Seq<bool>, k: int) -> int
    decreases MAX_RETRIES - k,
{
    if k >= MAX_RETRIES {
        0
    } else if probes[k] {
        1
    } else {
        1 + attempts_from(probes, k + 1)
    }
}

/// Runs the retry loop against a fixed sequence of probe outcomes, one per
/// attempt: the pair returned is the number of attempts performed and
/// whether an icon was found within the retry bound.
pub fn run_presenter(probes: &Vec<bool>) -> (r: (u32, bool))
    requires
        probes@.len() >= MAX_RETRIES,
    ensures
        r.1 == success_within(probes@, 0),
        r.0 == attempts_from(probes@, 0),
{
    let mut k: u32 = 0;
    loop
        invariant
            probes@.len() >= MAX_RETRIES,
            k < MAX_RETRIES,
            success_within(probes@, 0) == success_within(probes@, k as int),
            attempts_from(probes@, 0) == k + attempts_from(probes@, k as int),
        decreases MAX_RETRIES - k,
    {
        let icon_exists = probes[k as usize];
        match presenter_step(k, icon_exists) {
            StepOutcome::Render => {
                return (k + 1, true);
            },
            StepOutcome::Exhausted => {
                proof {
                    assert(success_within(probes@, MAX_RETRIES as int) == false);
                    assert(attempts_from(probes@, MAX_RETRIES as int) == 0);
                }
                return (k + 1, false);
            },
            StepOutcome::Retry => {
                k = k + 1;
            },
        }
    }
}

/// When every probe up to the bound reports a missing icon, the loop
/// performs exactly the bound many attempts and does not succeed.
pub proof fn lemma_retry_exhaustion(probes: Seq<bool>)
    requires
        probes.len() >= MAX_RETRIES,
        forall|i: int| 0 <= i < MAX_RETRIES ==> !probes[i],
    ensures
        !success_within(probes, 0),
        attempts_from(probes, 0) == MAX_RETRIES,
{
    lemma_exhaustion_from(probes, 0);
}

proof fn lemma_exhaustion_from(probes: Seq<bool>, k: int)
    requires
        probes.len() >= MAX_RETRIES,
        0 <= k <= MAX_RETRIES,
        forall|i: int| k <= i < MAX_RETRIES ==> !probes[i],
    ensures
        !success_within(probes, k),
        attempts_from(probes, k) == MAX_RETRIES - k,
    decreases MAX_RETRIES - k,
{
    if k < MAX_RETRIES {
        lemma_exhaustion_from(probes, k + 1);
    }
}

/// When the very first probe reports an existing icon, the loop performs
/// exactly one attempt and succeeds.
pub proof fn lemma_first_probe_hit(probes: Seq<bool>)
    requires
        probes.len() >= MAX_RETRIES,
        probes[0],
    ensures
        success_within(probes, 0),
        attempts_from(probes, 0) == 1,
{
}

/// A display scale factor in thousandths, so that one thousand stands for
/// the neutral factor.
#[derive(Clone, Copy, Debug, PartialEq, Eq, Structural)]
pub struct Scale {
    pub milli: u32,
}

/// Position of the first decimal point, or the length when there is none.
pub open spec fn first_dot(s: Seq<char>) -> int
    decreases s.len(),
{
    if s.len() == 0 {
        0
    } else if s[0] == '.' {
        0
    } else {
        1 + first_dot(s.drop_first())
    }
}

proof fn lemma_first_dot(s: Seq<char>)
    ensures
        0 <= first_dot(s) <= s.len(),
        forall|j: int| 0 <= j < first_dot(s) ==> s[j] != '.',
        first_dot(s) < s.len() ==> s[first_dot(s)] == '.',
    decreases s.len(),
{
    if s.len() > 0 && s[0] != '.' {
        lemma_first_dot(s.drop_first());
        assert forall|j: int| 0 <= j < first_dot(s) implies s[j] != '.' by {
            if j > 0 {
                assert(s.drop_first()[j - 1] == s[j]);
            }
        }
        if first_dot(s) < s.len() {
            assert(s.drop_first()[first_dot(s) - 1] == s[first_dot(s)]);
        }
    }
}

/// Thousandths contributed by a fraction part: only its first three digits
/// matter.
pub open spec fn milli_of_frac(f: Seq<char>) -> int {
    if f.len() == 0 {
        0
    } else if f.len() == 1 {
        digits_val(f) * 100
    } else if f.len() == 2 {
        digits_val(f) * 10
    } else {
        digits_val(f.take(3))
    }
}

/// A scale string read as thousandths: a plain decimal numeral with an
/// optional point and fraction, at least one digit in all, nothing else.
pub open spec fn scale_milli_of(s: Seq<char>) -> Option<int> {
    let d = first_dot(s);
    let ip = s.take(d);
    let fp = if d < s.len() {
        s.skip(d + 1)
    } else {
        Seq::<char>::empty()
    };
    if (ip.len() > 0 || fp.len() > 0) && all_digits(ip) && all_digits(fp) {
        Some(digits_val(ip) * 1000 + milli_of_frac(fp))
    } else {
        None
    }
}

/// Exec search for the first decimal point.
fn find_dot(s: &str) -> (r: usize)
    ensures
        r == first_dot(s@),
{
    proof {
        lemma_first_dot(s@);
    }
    let len = s.unicode_len();
    let mut i: usize = 0;
    while i < len
        invariant
            len == s@.len(),
            i <= len,
            forall|j: int| 0 <= j < i ==> s@[j] != '.',
            0 <= first_dot(s@) <= s@.len(),
            forall|j: int| 0 <= j < first_dot(s@) ==> s@[j] != '.',
            first_dot(s@) < s@.len() ==> s@[first_dot(s@)] == '.',
            i <= first_dot(s@),
        decreases len - i,
    {
        if s.get_char(i) == '.' {
            return i;
        }
        i += 1;
    }
    len
}

/// Validates a scale argument: a decimal numeral of at least one half
/// (and small enough for the thousandths to fit the scale type).
pub fn check_scale(scale: &str) -> (r: Result<Scale, String>)
    ensures
        match r {
            Ok(sc) => scale_milli_of(scale@) == Some(sc.milli as int) && sc.milli >= 500,
            Err(e) => (forall|m: int|
                scale_milli_of(scale@) == Some(m) ==> !(500 <= m <= u32::MAX)) && e@
                == "scale factor must be at least 0.5."@,
        },
{
    proof {
        lemma_first_dot(scale@);
    }
    let len = scale.unicode_len();
    let d = find_dot(scale);
    let ip = scale.substring_char(0, d);
    let fp = if d < len {
        scale.substring_char(d + 1, len)
    } else {
        scale.substring_char(len, len)
    };
    proof {
        assert(ip@ =~= scale@.take(d as int));
        if d < len {
            assert(fp@ =~= scale@.skip(d + 1));
        } else {
            assert(fp@ =~= Seq::<char>::empty());
        }
    }
    let ip_len = ip.unicode_len();
    let fp_len = fp.unicode_len();
    if ip_len == 0 && fp_len == 0 {
        return Err(String::from_str("scale factor must be at least 0.5."));
    }
    let vi = match digits_value(ip) {
        Some(v) => v,
        None => {
            proof {
                assert forall|m: int| scale_milli_of(scale@) == Some(m) implies !(500 <= m
                    <= u32::MAX) by {
                    assert(all_digits(ip@) && all_digits(fp@));
                    assert(digits_val(ip@) > u32::MAX);
                    crate::strutil::lemma_digits_val_nonneg(fp@);
                    if fp@.len() >= 3 {
                        assert(all_digits(fp@.take(3)));
                        crate::strutil::lemma_digits_val_nonneg(fp@.take(3));
                    }
                    assert(milli_of_frac(fp@) >= 0);
                }
            }
            return Err(String::from_str("scale factor must be at least 0.5."));
        },
    };
    if !all_digits_check(fp) {
        return Err(String::from_str("scale factor must be at least 0.5."));
    }
    let vf: u64 = if fp_len == 0 {
        0
    } else if fp_len == 1 {
        proof {
            crate::strutil::lemma_digits_val_small(fp@);
        }
        let v = match digits_value(fp) {
            Some(v) => v,
            None => {
                proof {
                    assert(false);
                }
                0
            },
        };
        v * 100
    } else if fp_len == 2 {
        proof {
            crate::strutil::lemma_digits_val_small(fp@);
        }
        let v = match digits_value(fp) {
            Some(v) => v,
            None => {
                proof {
                    assert(false);
                }
                0
            },
        };
        v * 10
    } else {
        let f3 = fp.substring_char(0, 3);
        proof {
            assert(f3@ =~= fp@.take(3));
            assert(all_digits(f3@));
            crate::strutil::lemma_digits_val_small(f3@);
        }
        match digits_value(f3) {
            Some(v) => v,
            None => {
                proof {
                    assert(false);
                }
                0
            },
        }
    };
    let milli: u64 = vi * 1000 + vf;
    if milli < 500 || milli > u32::MAX as u64 {
        return Err(String::from_str("scale factor must be at least 0.5."));
    }
    Ok(Scale { milli: milli as u32 })
}

/// Validates a fixed-height argument: a decimal numeral of at least two.
pub fn check_height(height: &str) -> (r: Result<u32, String>)
    ensures
        match r {
            Ok(h) => height@.len() > 0 && all_digits(height@) && digits_val(height@) == h && h
                >= 2,
            Err(e) => !(height@.len() > 0 && all_digits(height@) && 2 <= digits_val(height@)
                <= u32::MAX) && e@ == "height must be at least 2."@,
        },
{
    match crate::strutil::parse_u32(height) {
        Some(h) if h >= 2 => Ok(h),
        _ => Err(String::from_str("height must be at least 2.")),
    }
}

/// The height a record displays at: a fixed override verbatim when given,
/// otherwise the record's own height scaled and rounded to the nearest
/// whole number (capped at the height type's range).
pub open spec fn spec_compute_height(base: u32, milli: u32, override_height: Option<u32>) -> u32 {
    match override_height {
        Some(h) => h,
        None => {
            let v = (base * milli + 500) / 1000;
            if v > u32::MAX {
                u32::MAX
            } else {
                v as u32
            }
        },
    }
}

/// Computes the display height from the record's base height, the scale
/// factor, and the optional fixed override.
pub fn compute_height(base_height: u32, scale: &Scale, override_height: Option<u32>) -> (r: u32)
    ensures
        r == spec_compute_height(base_height, scale.milli, override_height),
{
    match override_height {
        Some(h) => h,
        None => {
            proof {
                assert((base_height as int) * (scale.milli as int) <= (u32::MAX as int) * (
                u32::MAX as int)) by (nonlinear_arith)
                    requires
                        0 <= base_height <= u32::MAX,
                        0 <= scale.milli <= u32::MAX,
                ;
            }
            let v: u64 = (base_height as u64) * (scale.milli as u64) + 500;
            let q: u64 = v / 1000;
            if q > u32::MAX as u64 {
                u32::MAX
            } else {
                q as u32
            }
        },
    }
}

/// The display width derived from a computed height: exactly twice the
/// height, capped at the width type's range.
pub fn display_width(height: u32) -> (r: u32)
    ensures
        r == if 2 * height > u32::MAX {
            u32::MAX as int
        } else {
            2 * height as int
        },
{
    if height > u32::MAX / 2 {
        u32::MAX
    } else {
        height * 2
    }
}

/// The icon path a record and its variant resolve to, under the asset root.
pub open spec fn spec_icon_path(root: Seq<char>, name: Seq<char>, is_rare: bool) -> Seq<char> {
    root + "/pokemon-icons/"@ + (if is_rare {
        "shiny"@
    } else {
        "normal"@
    }) + "/"@ + name + ".png"@
}

/// Pure path construction for a record's icon under the asset root; the
/// variant flag picks the variant subdirectory. Touches no filesystem.
pub fn resolve_icon_path(root: &str, name: &str, is_rare: bool) -> (r: String)
    ensures
        r@ == spec_icon_path(root@, name@, is_rare),
{
    let mut out = String::from_str(root);
    out.append("/pokemon-icons/");
    if is_rare {
        out.append("shiny");
    } else {
        out.append("normal");
    }
    out.append("/");
    out.append(name);
    out.append(".png");
    proof {
        assert(out@ =~= spec_icon_path(root@, name@, is_rare));
    }
    out
}

} // verus!
