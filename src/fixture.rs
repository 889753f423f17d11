use vstd::prelude::*;
use vstd::string::StringExecFns;

verus! {

/// The creation plan for a population whose file `i` exists when
/// `exists[i]` holds: the indices of the missing files, in increasing order.
pub open spec fn is_creation_plan(exists: Seq<bool>, plan: Seq<u32>) -> bool {
    &&& forall|a: int, b: int| 0 <= a < b < plan.len() ==> plan[a] < plan[b]
    &&& forall|i: int|
        0 <= i <= u32::MAX ==> (plan.contains(i as u32) <==> (i < exists.len() && !exists[i]))
}

/// Which files exist once every file of `plan` has been created.
pub open spec fn provisioned(exists: Seq<bool>, plan: Seq<u32>) -> Seq<bool> {
    Seq::new(exists.len(), |i: int| exists[i] || plan.contains(i as u32))
}

/// Lists the files to create, given which of the population already exist.
/// A file that exists is never listed: it is kept as it is, unchecked.
pub fn files_to_create(exists: &Vec<bool>) -> (r: Vec<u32>)
    requires
        exists@.len() <= u32::MAX + 1,
    ensures
        is_creation_plan(exists@, r@),
{
    let mut r: Vec<u32> = Vec::new();
    let mut i: usize = 0;
    while i < exists.len()
        invariant
            i <= exists@.len() <= u32::MAX + 1,
            forall|a: int, b: int| 0 <= a < b < r@.len() ==> r@[a] < r@[b],
            forall|k: int| 0 <= k < r@.len() ==> r@[k] < i,
            forall|j: int|
                0 <= j <= u32::MAX ==> (r@.contains(j as u32) <==> (j < i && !exists@[j])),
        decreases exists@.len() - i,
    {
        if !exists[i] {
            let ghost before = r@;
            r.push(i as u32);
            proof {
                assert forall|j: int| 0 <= j <= u32::MAX implies (r@.contains(j as u32) <==> (j
                    < i + 1 && !exists@[j])) by {
                    if j == i {
                        assert(r@[r@.len() - 1] == j as u32);
                    } else if r@.contains(j as u32) {
                        let k = choose|k: int| 0 <= k < r@.len() && r@[k] == j as u32;
                        if k < before.len() {
                            assert(before[k] == j as u32);
                        }
                    } else if j < i && !exists@[j] {
                        let k = choose|k: int| 0 <= k < before.len() && before[k] == j as u32;
                        assert(r@[k] == j as u32);
                    }
                }
            }
        } else {
            proof {
                assert forall|j: int| 0 <= j <= u32::MAX implies (r@.contains(j as u32) <==> (j
                    < i + 1 && !exists@[j])) by {
                    if r@.contains(j as u32) {
                        let k = choose|k: int| 0 <= k < r@.len() && r@[k] == j as u32;
                        assert(r@[k] < i);
                    }
                }
            }
        }
        i = i + 1;
    }
    r
}

/// Provisioning is idempotent: once the planned files are created, every
/// file of the population exists and a second run plans no creation, so no
/// file is ever written twice. A file that already existed is never planned.
pub proof fn lemma_provisioning_idempotent(exists: Seq<bool>, plan: Seq<u32>)
    requires
        exists.len() <= u32::MAX + 1,
        is_creation_plan(exists, plan),
    ensures
        forall|i: int| 0 <= i < exists.len() ==> #[trigger] provisioned(exists, plan)[i],
        forall|second: Seq<u32>|
            is_creation_plan(provisioned(exists, plan), second) ==> second.len() == 0,
        forall|k: int| 0 <= k < plan.len() ==> !exists[plan[k] as int] && plan[k] < exists.len(),
{
    let after = provisioned(exists, plan);
    assert forall|i: int| 0 <= i < exists.len() implies #[trigger] after[i] by {
        if !exists[i] {
            assert(plan.contains(i as u32));
        }
    }
    assert forall|second: Seq<u32>| is_creation_plan(after, second) implies second.len() == 0 by {
        if second.len() > 0 {
            assert(second.contains(second[0]));
            assert(after[second[0] as int]);
        }
    }
    assert forall|k: int| 0 <= k < plan.len() implies !exists[plan[k] as int] && plan[k]
        < exists.len() by {
        assert(plan.contains(plan[k]));
    }
}

/// Bytes still to write after `written` bytes, in one write of at most
/// `chunk` bytes: the whole chunk, or what is left of the file.
pub open spec fn write_len(file_size: nat, chunk: nat, written: nat) -> nat {
    if written >= file_size {
        0
    } else if file_size - written < chunk {
        (file_size - written) as nat
    } else {
        chunk
    }
}

/// The lengths of the successive writes that fill a file from `written`
/// bytes to `file_size` bytes.
pub open spec fn write_lengths(file_size: nat, chunk: nat, written: nat) -> Seq<nat>
    decreases file_size - written,
    when chunk > 0
{
    if written >= file_size {
        Seq::empty()
    } else {
        let n = write_len(file_size, chunk, written);
        seq![n] + write_lengths(file_size, chunk, written + n)
    }
}

/// The sum of a sequence of lengths.
pub open spec fn total(s: Seq<nat>) -> nat
    decreases s.len(),
{
    if s.len() == 0 {
        0
    } else {
        s[0] + total(s.drop_first())
    }
}

/// How many bytes the next write of a fixture file holds, given how many are
/// already written; zero once the file is complete.
pub fn next_write_len(file_size: u64, chunk: u64, written: u64) -> (r: u64)
    ensures
        r == write_len(file_size as nat, chunk as nat, written as nat),
{
    if written >= file_size {
        0
    } else if file_size - written < chunk {
        file_size - written
    } else {
        chunk
    }
}

/// Writing a fixture file chunk by chunk from `written` bytes yields exactly
/// `file_size` bytes: each write is non-empty and at most one chunk, and their
/// lengths add up to what was missing.
pub proof fn lemma_writes_fill_exactly(file_size: nat, chunk: nat, written: nat)
    requires
        chunk > 0,
        written <= file_size,
    ensures
        total(write_lengths(file_size, chunk, written)) == file_size - written,
        forall|k: int|
            0 <= k < write_lengths(file_size, chunk, written).len() ==> 0 < #[trigger] write_lengths(
                file_size,
                chunk,
                written,
            )[k] <= chunk,
    decreases file_size - written,
{
    if written < file_size {
        let n = write_len(file_size, chunk, written);
        let rest = write_lengths(file_size, chunk, written + n);
        lemma_writes_fill_exactly(file_size, chunk, written + n);
        let s = write_lengths(file_size, chunk, written);
        assert(s == seq![n] + rest);
        assert(s.drop_first() =~= rest);
        assert forall|k: int| 0 <= k < s.len() implies 0 < #[trigger] s[k] <= chunk by {
            if k > 0 {
                assert(s[k] == rest[k - 1]);
            }
        }
    }
}

/// The decimal digits of `n`, most significant first, without leading zeros.
pub open spec fn decimal(n: nat) -> Seq<char>
    decreases n,
{
    let digit = seq!['0', '1', '2', '3', '4', '5', '6', '7', '8', '9'][(n % 10) as int];
    if n < 10 {
        seq![digit]
    } else {
        decimal(n / 10).push(digit)
    }
}

/// The name of fixture file `index`: its index in decimal, then `.data`.
pub open spec fn file_name(index: nat) -> Seq<char> {
    decimal(index) + seq!['.', 'd', 'a', 't', 'a']
}

/// Relies on `format!` with `{}` on a `u32`, which writes the number in
/// decimal without sign, padding or leading zeros.
#[verifier::external_body]
fn format_decimal(index: u32) -> (r: String)
    ensures
        r@ == decimal(index as nat),
{
    format!("{}", index)
}

/// The name of fixture file `index`.
pub fn format_file_name(index: u32) -> (r: String)
    ensures
        r@ == file_name(index as nat),
{
    let digits = format_decimal(index);
    proof {
        reveal_strlit(".data");
    }
    let r = digits.concat(".data");
    assert(r@ =~= file_name(index as nat));
    r
}

/// The names of the fixture files `0..num_files`, in index order.
pub fn file_names(num_files: u32) -> (r: Vec<String>)
    ensures
        r@.len() == num_files,
        forall|i: int| 0 <= i < num_files ==> (#[trigger] r@[i])@ == file_name(i as nat),
{
    let mut r: Vec<String> = Vec::new();
    let mut i: u32 = 0;
    while i < num_files
        invariant
            i <= num_files,
            r@.len() == i,
            forall|k: int| 0 <= k < i ==> (#[trigger] r@[k])@ == file_name(k as nat),
        decreases num_files - i,
    {
        r.push(format_file_name(i));
        i = i + 1;
    }
    r
}

} // verus!
