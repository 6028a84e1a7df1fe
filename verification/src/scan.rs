//! Screening of equation text before it reaches the expression evaluator.
//!
//! The evaluator's index arithmetic goes out of bounds on exactly two shapes
//! of text, both statable over the characters:
//!
//! - while grouping brackets: a closing bracket takes the running bracket
//!   depth below zero, and a later closing bracket brings it back to zero
//!   (the grouper then inserts the completed group at an out-of-range index);
//! - while evaluating: an operator heads the token list of the equation or of
//!   a bracket group that takes part in evaluation (the evaluator then asks
//!   for the operand to its left and subtracts below index zero). A group
//!   takes part only if the depth where it opens is non-negative and the
//!   depth later returns to zero; the content of any other group is dropped
//!   unevaluated.
//!
//! The pipeline refuses both shapes up front; this module defines them over
//! the text and decides them by verified scans.

use vstd::prelude::*;

verus! {

/// The characters the evaluator treats as binary operators.
pub open spec fn op_char(c: char) -> bool {
    c == '+' || c == '-' || c == '*' || c == '/' || c == ':' || c == '^'
}

/// Every character of `s` at a position in `[from, to)` is a space.
pub open spec fn all_spaces(s: Seq<char>, from: int, to: int) -> bool {
    forall|j: int| from <= j < to ==> s[j] == ' '
}

/// Number of opening minus number of closing brackets among the first `i`
/// characters of `s`.
pub open spec fn depth_at(s: Seq<char>, i: int) -> int
    decreases i,
{
    if i <= 0 {
        0
    } else {
        depth_at(s, i - 1) + if s[i - 1] == '(' {
            1int
        } else if s[i - 1] == ')' {
            -1int
        } else {
            0int
        }
    }
}

/// The text contains a power operator, so evaluating it goes through a
/// library power function whose precision varies by platform.
pub open spec fn has_power_char(s: Seq<char>) -> bool {
    exists|i: int| 0 <= i < s.len() && #[trigger] s[i] == '^'
}

/// The bracket depth dips below zero and a later closing bracket brings it
/// back to zero: a bracket group completes after a stray closing bracket.
pub open spec fn dip_then_completion(s: Seq<char>) -> bool {
    exists|i: int, j: int|
        #![trigger depth_at(s, i), depth_at(s, j + 1)]
        0 <= i <= j < s.len() && depth_at(s, i) < 0 && s[j] == ')' && depth_at(s, j + 1) == 0
}

/// The opening bracket at position `k` starts a group that takes part in
/// evaluation: it opens at non-negative depth and the depth later returns to
/// zero, so the whole bracket nest around it completes.
pub open spec fn materialized_open(s: Seq<char>, k: int) -> bool {
    &&& 0 <= k < s.len()
    &&& s[k] == '('
    &&& depth_at(s, k) >= 0
    &&& exists|m: int| k < m <= s.len() && #[trigger] depth_at(s, m) == 0
}

/// Character `j` would stop the head of the top-level token list from being
/// whatever comes after it: it is an ordinary token character, or an opening
/// bracket at depth zero (which becomes the head itself, or swallows the
/// rest of the text).
pub open spec fn top_blocker(s: Seq<char>, j: int) -> bool {
    ||| (s[j] != ' ' && s[j] != '(' && s[j] != ')')
    ||| (s[j] == '(' && depth_at(s, j) == 0)
}

/// Nothing before position `i` has produced or blocked the head of the
/// top-level token list.
pub open spec fn top_open(s: Seq<char>, i: int) -> bool {
    forall|j: int| 0 <= j < i ==> !(#[trigger] top_blocker(s, j))
}

/// The operator at position `i` heads the top-level token list.
pub open spec fn top_head_op_at(s: Seq<char>, i: int) -> bool {
    &&& 0 <= i < s.len()
    &&& op_char(s[i])
    &&& depth_at(s, i) <= 0
    &&& top_open(s, i)
}

/// Only spaces stand between position `i` and a materialized opening bracket
/// before it, so the token at `i` would head that group's token list.
pub open spec fn after_materialized_open(s: Seq<char>, i: int) -> bool {
    exists|k: int| 0 <= k < i && #[trigger] materialized_open(s, k) && all_spaces(s, k + 1, i)
}

/// The operator at position `i` heads the token list of a bracket group that
/// takes part in evaluation.
pub open spec fn inner_head_op_at(s: Seq<char>, i: int) -> bool {
    &&& 0 <= i < s.len()
    &&& op_char(s[i])
    &&& after_materialized_open(s, i)
}

/// Some operator among the first `p` characters heads the token list of the
/// equation or of a bracket group that takes part in evaluation.
pub open spec fn head_op_before(s: Seq<char>, p: int) -> bool
    decreases p,
{
    if p <= 0 {
        false
    } else {
        head_op_before(s, p - 1) || top_head_op_at(s, p - 1) || inner_head_op_at(s, p - 1)
    }
}

/// Some operator of `s` heads the token list of the equation or of a bracket
/// group that takes part in evaluation, and so has no left operand there.
pub open spec fn group_head_op(s: Seq<char>) -> bool {
    head_op_before(s, s.len() as int)
}

/// Decides `dip_then_completion` by one scan that counts brackets.
pub fn finds_dip_completion(text: &String) -> (b: bool)
    ensures
        b == dip_then_completion(text@),
{
    let s: &str = text.as_str();
    let n: usize = s.unicode_len();
    let mut opens: usize = 0;
    let mut closes: usize = 0;
    let mut dipped: bool = false;
    let mut found: bool = false;
    let mut i: usize = 0;
    while i < n
        invariant
            s@ == text@,
            n == s@.len(),
            i <= n,
            opens <= i,
            closes <= i,
            opens - closes == depth_at(s@, i as int),
            dipped == exists|m: int| 0 <= m <= i && #[trigger] depth_at(s@, m) < 0,
            found == exists|di: int, j: int|
                #![trigger depth_at(s@, di), depth_at(s@, j + 1)]
                0 <= di <= j < i && depth_at(s@, di) < 0 && s@[j] == ')' && depth_at(
                    s@,
                    j + 1,
                ) == 0,
        decreases n - i,
    {
        let c = s.get_char(i);
        if c == '(' {
            opens = opens + 1;
        } else if c == ')' {
            closes = closes + 1;
            if closes > opens {
                dipped = true;
            } else if closes == opens && dipped {
                found = true;
            }
        }
        proof {
            assert(depth_at(s@, i + 1) == opens - closes);
        }
        i = i + 1;
    }
    found
}

/// Decides `group_head_op` by two scans: the first finds the longest prefix
/// whose bracket depth is zero (which settles which groups take part in
/// evaluation), the second walks the text tracking whether the next
/// character would head the top-level token list or a materialized group's.
pub fn finds_group_head_op(text: &String) -> (b: bool)
    ensures
        b == group_head_op(text@),
{
    let s: &str = text.as_str();
    let n: usize = s.unicode_len();
    let mut opens: usize = 0;
    let mut closes: usize = 0;
    let mut last_zero: usize = 0;
    let mut i: usize = 0;
    while i < n
        invariant
            s@ == text@,
            n == s@.len(),
            i <= n,
            opens <= i,
            closes <= i,
            opens - closes == depth_at(s@, i as int),
            last_zero <= i,
            depth_at(s@, last_zero as int) == 0,
            forall|m: int| 0 <= m <= i && #[trigger] depth_at(s@, m) == 0 ==> m <= last_zero,
        decreases n - i,
    {
        let c = s.get_char(i);
        if c == '(' {
            opens = opens + 1;
        } else if c == ')' {
            closes = closes + 1;
        }
        proof {
            assert(depth_at(s@, i + 1) == opens - closes);
        }
        if opens == closes {
            last_zero = i + 1;
        }
        i = i + 1;
    }

    let mut opens2: usize = 0;
    let mut closes2: usize = 0;
    let mut in_top: bool = true;
    let mut expecting: bool = false;
    let mut found: bool = false;
    let mut p: usize = 0;
    while p < n
        invariant
            s@ == text@,
            n == s@.len(),
            p <= n,
            opens2 <= p,
            closes2 <= p,
            opens2 - closes2 == depth_at(s@, p as int),
            last_zero <= n,
            depth_at(s@, last_zero as int) == 0,
            forall|m: int| 0 <= m <= n && #[trigger] depth_at(s@, m) == 0 ==> m <= last_zero,
            in_top == top_open(s@, p as int),
            expecting == after_materialized_open(s@, p as int),
            found == head_op_before(s@, p as int),
        decreases n - p,
    {
        let c = s.get_char(p);
        let is_op = c == '+' || c == '-' || c == '*' || c == '/' || c == ':' || c == '^';
        if is_op && in_top && opens2 <= closes2 {
            proof {
                assert(top_head_op_at(s@, p as int));
            }
            found = true;
        }
        if is_op && expecting {
            proof {
                assert(inner_head_op_at(s@, p as int));
            }
            found = true;
        }
        proof {
            if !(is_op && in_top && opens2 <= closes2) {
                assert(!top_head_op_at(s@, p as int));
            }
            if !(is_op && expecting) {
                assert(!inner_head_op_at(s@, p as int));
            }
        }
        if c == '(' {
            if opens2 >= closes2 && p < last_zero {
                proof {
                    assert(materialized_open(s@, p as int)) by {
                        assert(depth_at(s@, last_zero as int) == 0);
                    }
                    assert(after_materialized_open(s@, p + 1)) by {
                        assert(all_spaces(s@, p + 1, p + 1));
                    }
                }
                expecting = true;
            } else {
                proof {
                    assert(!materialized_open(s@, p as int)) by {
                        if p >= last_zero {
                            assert forall|m: int| p < m <= n implies #[trigger] depth_at(s@, m)
                                != 0 by {
                                if depth_at(s@, m) == 0 {
                                    assert(m <= last_zero);
                                }
                            }
                        }
                    }
                    assert(!after_materialized_open(s@, p + 1)) by {
                        assert forall|k: int|
                            0 <= k < p + 1 && #[trigger] materialized_open(s@, k) implies !all_spaces(
                            s@,
                            k + 1,
                            p + 1,
                        ) by {
                            if k < p {
                                assert(s@[p as int] != ' ');
                            }
                        }
                    }
                }
                expecting = false;
            }
        } else if c == ' ' {
            proof {
                assert(after_materialized_open(s@, p + 1) == after_materialized_open(
                    s@,
                    p as int,
                )) by {
                    if after_materialized_open(s@, p as int) {
                        let k = choose|k: int|
                            0 <= k < p && #[trigger] materialized_open(s@, k) && all_spaces(
                                s@,
                                k + 1,
                                p as int,
                            );
                        assert(all_spaces(s@, k + 1, p + 1));
                    }
                    if after_materialized_open(s@, p + 1) {
                        let k = choose|k: int|
                            0 <= k < p + 1 && #[trigger] materialized_open(s@, k) && all_spaces(
                                s@,
                                k + 1,
                                p + 1,
                            );
                        assert(k < p) by {
                            assert(s@[p as int] == ' ');
                        }
                        assert(all_spaces(s@, k + 1, p as int));
                    }
                }
            }
        } else {
            proof {
                assert(!after_materialized_open(s@, p + 1)) by {
                    assert forall|k: int|
                        0 <= k < p + 1 && #[trigger] materialized_open(s@, k) implies !all_spaces(
                        s@,
                        k + 1,
                        p + 1,
                    ) by {
                        if k == p {
                            assert(s@[p as int] != '(');
                        } else {
                            assert(s@[p as int] != ' ');
                        }
                    }
                }
            }
            expecting = false;
        }
        if c == '(' && opens2 == closes2 {
            proof {
                assert(top_blocker(s@, p as int));
            }
            in_top = false;
        } else if c != '(' && c != ')' && c != ' ' {
            proof {
                assert(top_blocker(s@, p as int));
            }
            in_top = false;
        } else {
            proof {
                assert(!top_blocker(s@, p as int));
                assert(top_open(s@, p + 1) == top_open(s@, p as int)) by {
                    if top_open(s@, p as int) {
                        assert forall|j: int| 0 <= j < p + 1 implies !(#[trigger] top_blocker(
                            s@,
                            j,
                        )) by {}
                    }
                }
            }
        }
        if c == '(' {
            opens2 = opens2 + 1;
        } else if c == ')' {
            closes2 = closes2 + 1;
        }
        proof {
            assert(depth_at(s@, p + 1) == opens2 - closes2);
            assert(head_op_before(s@, p + 1) == (head_op_before(s@, p as int) || top_head_op_at(
                s@,
                p as int,
            ) || inner_head_op_at(s@, p as int)));
        }
        p = p + 1;
    }
    found
}

} // verus!
