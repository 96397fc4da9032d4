//! Command resolution: the ordered list of launcher candidates for the
//! backend's entry point, chosen by host-platform class.

use vstd::prelude::*;

verus! {

/// The class of host operating system, as far as candidate choice cares:
/// Windows-class hosts get a different launcher order than everything else.
#[derive(Clone, Copy, PartialEq, Eq, Structural, Debug)]
pub enum HostOs {
    Windows,
    Other,
}

/// One candidate launcher executable that might start the backend.
#[derive(Clone, Copy, PartialEq, Eq, Structural, Debug)]
pub enum Candidate {
    Python,
    Py,
    Python3,
}

/// The command name under which a candidate is spawned.
pub open spec fn spec_command_name(c: Candidate) -> Seq<char> {
    match c {
        Candidate::Python => "python"@,
        Candidate::Py => "py"@,
        Candidate::Python3 => "python3"@,
    }
}

/// The ordered candidate list for a host class, most likely to succeed
/// first: `python`, `py`, `python3` on Windows-class hosts, `python3`,
/// `python` everywhere else.
pub open spec fn spec_candidates(os: HostOs) -> Seq<Candidate> {
    match os {
        HostOs::Windows => seq![Candidate::Python, Candidate::Py, Candidate::Python3],
        HostOs::Other => seq![Candidate::Python3, Candidate::Python],
    }
}

/// The executable name a candidate is spawned under.
pub fn command_name(c: Candidate) -> (r: &'static str)
    ensures
        r@ == spec_command_name(c),
{
    match c {
        Candidate::Python => "python",
        Candidate::Py => "py",
        Candidate::Python3 => "python3",
    }
}

/// Produces the ordered candidate list for the given host class. Total:
/// every host class yields a non-empty list (see
/// `lemma_candidates_nonempty_no_duplicates`).
pub fn resolve_candidates(os: HostOs) -> (r: Vec<Candidate>)
    ensures
        r@ == spec_candidates(os),
{
    let mut r: Vec<Candidate> = Vec::new();
    match os {
        HostOs::Windows => {
            r.push(Candidate::Python);
            r.push(Candidate::Py);
            r.push(Candidate::Python3);
        },
        HostOs::Other => {
            r.push(Candidate::Python3);
            r.push(Candidate::Python);
        },
    }
    proof {
        assert(r@ =~= spec_candidates(os));
    }
    r
}

/// Law: for every host class the candidate list is non-empty and repeats no
/// candidate.
pub proof fn lemma_candidates_nonempty_no_duplicates(os: HostOs)
    ensures
        spec_candidates(os).len() > 0,
        forall|i: int, j: int|
            0 <= i < j < spec_candidates(os).len() ==> spec_candidates(os)[i] != spec_candidates(
                os,
            )[j],
{
}

/// Law: distinct candidates run under distinct command names, so a candidate
/// list that repeats no candidate also names no command twice.
pub proof fn lemma_command_names_injective(a: Candidate, b: Candidate)
    requires
        a != b,
    ensures
        spec_command_name(a) != spec_command_name(b),
{
    reveal_strlit("python");
    reveal_strlit("py");
    reveal_strlit("python3");
    assert("python"@.len() == 6);
    assert("py"@.len() == 2);
    assert("python3"@.len() == 7);
}

/// Law: for every host class the command names in the candidate list are
/// pairwise distinct.
pub proof fn lemma_candidate_names_no_duplicates(os: HostOs)
    ensures
        forall|i: int, j: int|
            0 <= i < j < spec_candidates(os).len() ==> spec_command_name(
                spec_candidates(os)[i],
            ) != spec_command_name(spec_candidates(os)[j]),
{
    lemma_candidates_nonempty_no_duplicates(os);
    assert forall|i: int, j: int|
        0 <= i < j < spec_candidates(os).len() implies spec_command_name(
        spec_candidates(os)[i],
    ) != spec_command_name(spec_candidates(os)[j]) by {
        lemma_command_names_injective(spec_candidates(os)[i], spec_candidates(os)[j]);
    }
}

/// Law: a Windows-class host tries the generic `python` command first; every
/// other host tries `python3` first.
pub proof fn lemma_first_candidate(os: HostOs)
    ensures
        os is Windows ==> spec_candidates(os)[0] == Candidate::Python,
        !(os is Windows) ==> spec_candidates(os)[0] == Candidate::Python3,
        os is Windows ==> spec_command_name(spec_candidates(os)[0]) == "python"@,
        !(os is Windows) ==> spec_command_name(spec_candidates(os)[0]) == "python3"@,
{
}

} // verus!
