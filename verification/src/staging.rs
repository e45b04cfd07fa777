//! The event materializer's verified half: deciding whether a run stages the
//! event's payload at all, and naming each run's backing file.
//!
//! A template that names no event path stages nothing. Otherwise every run
//! gets a backing file of its own, named after the run's number, so that
//! concurrent runs — for the same event or for different ones — never share
//! or race on one file. The unverified shell performs the actual write and
//! mounts the file at the template's event path inside the container.

use vstd::prelude::*;

use crate::config::ContainerConfig;

verus! {

/// The decimal digits of a number, most significant first, as ASCII bytes.
pub open spec fn decimal_digits(n: nat) -> Seq<u8>
    decreases n,
{
    if n < 10 {
        seq![(n + 0x30) as u8]
    } else {
        decimal_digits(n / 10).push((n % 10 + 0x30) as u8)
    }
}

/// The number a digit sequence denotes, most significant first.
pub open spec fn decimal_value(digits: Seq<u8>) -> nat
    decreases digits.len(),
{
    if digits.len() == 0 {
        0
    } else {
        decimal_value(digits.drop_last()) * 10 + (if digits.last() >= 0x30 {
            (digits.last() - 0x30) as nat
        } else {
            0
        })
    }
}

/// The name of the backing file for one run: the run's number in decimal
/// between a fixed prefix and suffix.
pub open spec fn staging_name(run: nat) -> Seq<u8> {
    seq![0x72u8, 0x75u8, 0x6eu8, 0x2du8] + decimal_digits(run) + seq![
        0x2eu8,
        0x6au8,
        0x73u8,
        0x6fu8,
        0x6eu8,
    ]
}

/// Reading the decimal digits of a number back gives the number.
proof fn lemma_decimal_digits_value(n: nat)
    ensures
        decimal_value(decimal_digits(n)) == n,
    decreases n,
{
    if n < 10 {
        let digits = decimal_digits(n);
        assert(digits.drop_last() =~= Seq::<u8>::empty());
        assert(decimal_value(digits.drop_last()) == 0);
    } else {
        lemma_decimal_digits_value(n / 10);
        let digits = decimal_digits(n);
        assert(digits.drop_last() =~= decimal_digits(n / 10));
        assert(digits.last() == (n % 10 + 0x30) as u8);
    }
}

/// Two different numbers have different decimal digit sequences.
proof fn lemma_decimal_digits_injective(a: nat, b: nat)
    requires
        a != b,
    ensures
        decimal_digits(a) != decimal_digits(b),
{
    if decimal_digits(a) == decimal_digits(b) {
        lemma_decimal_digits_value(a);
        lemma_decimal_digits_value(b);
    }
}

/// Two different runs get two different backing files: the staging names of
/// two different run numbers differ, so concurrent runs never write to one
/// file.
pub proof fn lemma_staging_names_distinct(a: nat, b: nat)
    requires
        a != b,
    ensures
        staging_name(a) != staging_name(b),
{
    lemma_decimal_digits_injective(a, b);
    if staging_name(a) == staging_name(b) {
        let prefix: Seq<u8> = seq![0x72u8, 0x75u8, 0x6eu8, 0x2du8];
        let suffix: Seq<u8> = seq![0x2eu8, 0x6au8, 0x73u8, 0x6fu8, 0x6eu8];
        let da = decimal_digits(a);
        let db = decimal_digits(b);
        assert(staging_name(a).len() == prefix.len() + da.len() + suffix.len());
        assert(staging_name(b).len() == prefix.len() + db.len() + suffix.len());
        assert(da.len() == db.len());
        assert forall|i: int| 0 <= i < da.len() implies da[i] == db[i] by {
            assert(staging_name(a)[prefix.len() + i] == da[i]);
            assert(staging_name(b)[prefix.len() + i] == db[i]);
        }
        assert(da =~= db);
    }
}

/// Appends the decimal digits of `n`, most significant first, as ASCII
/// bytes.
fn push_decimal_digits(n: u64, out: &mut Vec<u8>)
    ensures
        final(out)@ == old(out)@ + decimal_digits(n as nat),
    decreases n,
{
    if n < 10 {
        out.push((n as u8) + 0x30);
        proof {
            assert(old(out)@.push(((n + 0x30) as u8)) =~= old(out)@ + decimal_digits(n as nat));
        }
    } else {
        push_decimal_digits(n / 10, out);
        out.push(((n % 10) as u8) + 0x30);
        proof {
            assert((old(out)@ + decimal_digits(n as nat / 10)).push(((n % 10 + 0x30) as u8))
                =~= old(out)@ + decimal_digits(n as nat));
        }
    }
}

/// The name of the backing file for one run, as bytes of a file name.
pub fn staging_file_name(run: u64) -> (name: Vec<u8>)
    ensures
        name@ == staging_name(run as nat),
{
    let mut name: Vec<u8> = Vec::new();
    name.push(0x72);
    name.push(0x75);
    name.push(0x6e);
    name.push(0x2d);
    proof {
        assert(name@ =~= seq![0x72u8, 0x75u8, 0x6eu8, 0x2du8]);
    }
    push_decimal_digits(run, &mut name);
    name.push(0x2e);
    name.push(0x6a);
    name.push(0x73);
    name.push(0x6f);
    name.push(0x6e);
    proof {
        assert(name@ =~= staging_name(run as nat));
    }
    name
}

/// Where one run's payload is staged: the run's own backing file, and the
/// path inside the container at which the template wants it.
pub struct StagingPlan {
    /// The name of this run's backing file, unique to the run.
    pub file_name: Vec<u8>,
    /// The template's event path: where the container reads the payload.
    pub target: String,
}

/// Decides staging for one run: no plan when the template names no event
/// path — such a run materializes nothing — and otherwise a plan naming this
/// run's own backing file and the template's event path.
pub fn staging_plan(template: &ContainerConfig, run: u64) -> (plan: Option<StagingPlan>)
    ensures
        (plan is Some) == (template.event_path is Some),
        plan matches Some(p) ==> p.file_name@ == staging_name(run as nat) && p.target@
            == template.event_path->0@,
{
    match &template.event_path {
        None => None,
        Some(target) => Some(
            StagingPlan { file_name: staging_file_name(run), target: target.clone() },
        ),
    }
}

} // verus!
