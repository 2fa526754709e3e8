//! The frame of a semantic commit: a title line `<tag>:<summary>` that names the
//! variant of the event, a body that carries its payload as text, and a reserved-state
//! snapshot that only the variants that change the reserved state may hold.
use vstd::prelude::*;
use vstd::string::{StrSliceExecFns, StringExecFns};

use crate::types::{CommitKind, ReservedState};

verus! {

/// A commit without any change outside the reserved area.
pub struct SemanticCommit {
    pub title: String,
    pub body: String,
    /// The new reserved state, where the commit changes it.
    pub reserved_state: Option<ReservedState>,
}

/// Why a commit is not a valid semantic commit.
#[derive(Clone, Copy, Debug, PartialEq, Eq, Structural)]
pub enum DecodeError {
    /// The title is not `<tag>:<summary>` with a known tag and a one-line summary.
    InvalidTitle,
    /// The variant does not change the reserved state, yet the commit carries one.
    UnexpectedReservedState,
    /// A genesis commit without the initial reserved state.
    MissingReservedState,
}

pub open spec fn tag_spec(k: CommitKind) -> Seq<char> {
    match k {
        CommitKind::Genesis => seq!['g', 'e', 'n', 'e', 's', 'i', 's'],
        CommitKind::Transaction => seq!['t', 'x'],
        CommitKind::ExtraAgendaTransaction => seq!['e', 'x', 't', 'r', 'a', '-', 't', 'x'],
        CommitKind::Agenda => seq!['a', 'g', 'e', 'n', 'd', 'a'],
        CommitKind::AgendaProof => seq!['a', 'g', 'e', 'n', 'd', 'a', '-', 'p', 'r', 'o', 'o', 'f'],
        CommitKind::Block => seq!['b', 'l', 'o', 'c', 'k'],
    }
}

/// A summary fits on the title line.
pub open spec fn valid_summary(s: Seq<char>) -> bool {
    forall|i: int| 0 <= i < s.len() ==> s[i] != '\n'
}

/// The title of a commit of variant `k` with the given summary.
pub open spec fn title_of(k: CommitKind, summary: Seq<char>) -> Seq<char> {
    tag_spec(k) + seq![':'] + summary
}

/// Whether a variant may carry a reserved-state snapshot.
pub open spec fn may_change_reserved_state(k: CommitKind) -> bool {
    k == CommitKind::Genesis || k == CommitKind::Block
}

/// Whether a variant must carry one.
pub open spec fn needs_reserved_state(k: CommitKind) -> bool {
    k == CommitKind::Genesis
}

/// The tag of a variant.
pub fn tag(k: CommitKind) -> (r: &'static str)
    ensures
        r@ == tag_spec(k),
{
    match k {
        CommitKind::Genesis => {
            proof {
                reveal_strlit("genesis");
            }
            "genesis"
        },
        CommitKind::Transaction => {
            proof {
                reveal_strlit("tx");
            }
            "tx"
        },
        CommitKind::ExtraAgendaTransaction => {
            proof {
                reveal_strlit("extra-tx");
            }
            "extra-tx"
        },
        CommitKind::Agenda => {
            proof {
                reveal_strlit("agenda");
            }
            "agenda"
        },
        CommitKind::AgendaProof => {
            proof {
                reveal_strlit("agenda-proof");
            }
            "agenda-proof"
        },
        CommitKind::Block => {
            proof {
                reveal_strlit("block");
            }
            "block"
        },
    }
}

/// Character-wise equality of two strings.
pub fn str_equal(a: &str, b: &str) -> (r: bool)
    ensures
        r == (a@ == b@),
{
    let n = a.unicode_len();
    if n != b.unicode_len() {
        return false;
    }
    let mut i: usize = 0;
    while i < n
        invariant
            n == a@.len(),
            n == b@.len(),
            i <= n,
            forall|j: int| 0 <= j < i ==> a@[j] == b@[j],
        decreases n - i,
    {
        if a.get_char(i) != b.get_char(i) {
            return false;
        }
        i = i + 1;
    }
    proof {
        assert(a@ =~= b@);
    }
    true
}

fn summary_is_valid(s: &str) -> (r: bool)
    ensures
        r == valid_summary(s@),
{
    let n = s.unicode_len();
    let mut i: usize = 0;
    while i < n
        invariant
            n == s@.len(),
            i <= n,
            forall|j: int| 0 <= j < i ==> s@[j] != '\n',
        decreases n - i,
    {
        if s.get_char(i) == '\n' {
            return false;
        }
        i = i + 1;
    }
    true
}

/// The variant whose tag is `t`, if any.
fn kind_of_tag(t: &str) -> (r: Option<CommitKind>)
    ensures
        match r {
            Some(k) => t@ == tag_spec(k),
            None => forall|k: CommitKind| t@ != tag_spec(k),
        },
{
    let kinds = [
        CommitKind::Genesis,
        CommitKind::Transaction,
        CommitKind::ExtraAgendaTransaction,
        CommitKind::Agenda,
        CommitKind::AgendaProof,
        CommitKind::Block,
    ];
    let mut i: usize = 0;
    while i < 6
        invariant
            i <= 6,
            kinds@ == seq![
                CommitKind::Genesis,
                CommitKind::Transaction,
                CommitKind::ExtraAgendaTransaction,
                CommitKind::Agenda,
                CommitKind::AgendaProof,
                CommitKind::Block,
            ],
            forall|j: int| 0 <= j < i ==> t@ != tag_spec(#[trigger] kinds@[j]),
        decreases 6 - i,
    {
        if str_equal(t, tag(kinds[i])) {
            return Some(kinds[i]);
        }
        i = i + 1;
    }
    proof {
        assert forall|k: CommitKind| t@ != tag_spec(k) by {
            match k {
                CommitKind::Genesis => assert(kinds@[0] == k),
                CommitKind::Transaction => assert(kinds@[1] == k),
                CommitKind::ExtraAgendaTransaction => assert(kinds@[2] == k),
                CommitKind::Agenda => assert(kinds@[3] == k),
                CommitKind::AgendaProof => assert(kinds@[4] == k),
                CommitKind::Block => assert(kinds@[5] == k),
            }
        }
    }
    None
}

/// No tag holds a colon.
proof fn lemma_tag_has_no_colon(k: CommitKind, i: int)
    requires
        0 <= i < tag_spec(k).len(),
    ensures
        tag_spec(k)[i] != ':',
{
}

/// The title line of a commit of variant `k`.
pub fn encode_title(k: CommitKind, summary: &str) -> (r: String)
    ensures
        r@ == title_of(k, summary@),
{
    let mut r = String::from_str(tag(k));
    proof {
        reveal_strlit(":");
    }
    r.append(":");
    r.append(summary);
    r
}

/// Reads a title line: its variant and its summary.
pub fn decode_title(title: &str) -> (r: Result<(CommitKind, String), DecodeError>)
    ensures
        match r {
            Ok((k, s)) => title@ == title_of(k, s@) && valid_summary(s@),
            Err(e) => e == DecodeError::InvalidTitle && forall|k: CommitKind, s: Seq<char>|
                !(title@ == #[trigger] title_of(k, s) && valid_summary(s)),
        },
{
    let n = title.unicode_len();
    let mut p: usize = 0;
    while p < n && title.get_char(p) != ':'
        invariant
            n == title@.len(),
            p <= n,
            forall|j: int| 0 <= j < p ==> title@[j] != ':',
        decreases n - p,
    {
        p = p + 1;
    }
    if p == n {
        proof {
            assert forall|k: CommitKind, s: Seq<char>| !(title@ == #[trigger] title_of(k, s) && valid_summary(s)) by {
                if title@ == title_of(k, s) {
                    assert(title@[tag_spec(k).len() as int] == ':');
                }
            }
        }
        return Err(DecodeError::InvalidTitle);
    }
    let head = title.substring_char(0, p);
    let rest = title.substring_char(p + 1, n);
    proof {
        assert(title@ =~= head@ + seq![':'] + rest@);
    }
    match kind_of_tag(head) {
        Some(k) => {
            if summary_is_valid(rest) {
                Ok((k, String::from_str(rest)))
            } else {
                proof {
                    assert forall|k2: CommitKind, s: Seq<char>| !(title@ == #[trigger] title_of(k2, s) && valid_summary(s)) by {
                        if title@ == title_of(k2, s) {
                            lemma_split_at_first_colon(title@, p as int, k2, s);
                        }
                    }
                }
                Err(DecodeError::InvalidTitle)
            }
        },
        None => {
            proof {
                assert forall|k2: CommitKind, s: Seq<char>| !(title@ == #[trigger] title_of(k2, s) && valid_summary(s)) by {
                    if title@ == title_of(k2, s) {
                        lemma_split_at_first_colon(title@, p as int, k2, s);
                    }
                }
            }
            Err(DecodeError::InvalidTitle)
        },
    }
}

/// A title splits at its first colon into the tag and the summary.
proof fn lemma_split_at_first_colon(t: Seq<char>, p: int, k: CommitKind, s: Seq<char>)
    requires
        0 <= p < t.len(),
        t[p] == ':',
        forall|j: int| 0 <= j < p ==> t[j] != ':',
        t == title_of(k, s),
    ensures
        t.subrange(0, p) == tag_spec(k),
        t.subrange(p + 1, t.len() as int) == s,
{
    let n = tag_spec(k).len() as int;
    assert(t[n] == ':');
    if p < n {
        lemma_tag_has_no_colon(k, p);
    }
    assert(p == n);
    assert(t.subrange(0, p) =~= tag_spec(k));
    assert(t.subrange(p + 1, t.len() as int) =~= s);
}

/// Round trip of the title line: a title is determined by its variant and summary,
/// so reading back an encoded title gives the same variant and summary.
pub proof fn lemma_title_round_trip(k1: CommitKind, s1: Seq<char>, k2: CommitKind, s2: Seq<char>)
    requires
        title_of(k1, s1) == title_of(k2, s2),
    ensures
        k1 == k2,
        s1 == s2,
{
    let t = title_of(k1, s1);
    let n = tag_spec(k1).len() as int;
    assert(t[n] == ':');
    assert forall|j: int| 0 <= j < n implies t[j] != ':' by {
        lemma_tag_has_no_colon(k1, j);
    }
    lemma_split_at_first_colon(t, n, k2, s2);
    assert(t.subrange(0, n) =~= tag_spec(k1));
    assert(t.subrange(n + 1, t.len() as int) =~= s1);
    assert(tag_spec(k1) == tag_spec(k2));
    if k1 != k2 {
        assert(tag_spec(k1) != tag_spec(k2)) by {
            match k1 {
                CommitKind::Genesis => assert(tag_spec(k1)[0] != tag_spec(k2)[0] || tag_spec(k1).len() != tag_spec(k2).len()),
                CommitKind::Transaction => assert(tag_spec(k1)[0] != tag_spec(k2)[0] || tag_spec(k1).len() != tag_spec(k2).len()),
                CommitKind::ExtraAgendaTransaction => assert(tag_spec(k1)[0] != tag_spec(k2)[0] || tag_spec(k1).len() != tag_spec(k2).len()),
                CommitKind::Agenda => assert(tag_spec(k1).len() != tag_spec(k2).len()),
                CommitKind::AgendaProof => assert(tag_spec(k1).len() != tag_spec(k2).len()),
                CommitKind::Block => assert(tag_spec(k1)[0] != tag_spec(k2)[0] || tag_spec(k1).len() != tag_spec(k2).len()),
            }
        }
    }
}

/// Checks the frame of a semantic commit and returns its variant.
pub fn check_frame(sc: &SemanticCommit) -> (r: Result<CommitKind, DecodeError>)
    ensures
        match r {
            Ok(k) => (exists|s: Seq<char>| sc.title@ == #[trigger] title_of(k, s) && valid_summary(s))
                && (sc.reserved_state is Some ==> may_change_reserved_state(k))
                && (needs_reserved_state(k) ==> sc.reserved_state is Some),
            Err(DecodeError::InvalidTitle) => forall|k: CommitKind, s: Seq<char>|
                !(sc.title@ == #[trigger] title_of(k, s) && valid_summary(s)),
            Err(DecodeError::UnexpectedReservedState) => exists|k: CommitKind, s: Seq<char>|
                sc.title@ == #[trigger] title_of(k, s) && valid_summary(s) && sc.reserved_state is Some
                    && !may_change_reserved_state(k),
            Err(DecodeError::MissingReservedState) => exists|k: CommitKind, s: Seq<char>|
                sc.title@ == #[trigger] title_of(k, s) && valid_summary(s) && sc.reserved_state is None
                    && needs_reserved_state(k),
        },
{
    let (k, s) = match decode_title(sc.title.as_str()) {
        Ok(x) => x,
        Err(e) => {
            return Err(e);
        },
    };
    let carries = sc.reserved_state.is_some();
    let may = match k {
        CommitKind::Genesis | CommitKind::Block => true,
        _ => false,
    };
    if carries && !may {
        return Err(DecodeError::UnexpectedReservedState);
    }
    if !carries && k == CommitKind::Genesis {
        return Err(DecodeError::MissingReservedState);
    }
    proof {
        assert(sc.title@ == title_of(k, s@) && valid_summary(s@));
    }
    Ok(k)
}

} // verus!
