//! Mirrored GitHub comments: their text on the board, and the comment id read back from it.
use vstd::prelude::*;

use crate::text::{chars_of, find_in, parse_u64, push_decimal, string_of};
#[allow(unused_imports)]
use crate::text::{
    all_digits, contains_text, decimal, decimal_value, digit_char, is_digit,
    lemma_run_len_is, non_digit, occurs_at, read_u64, run_len,
};

verus! {

/// The text that precedes the GitHub comment id in a mirrored comment.
pub open spec fn marker() -> Seq<char> {
    "vibe-kanban-github-comment-id:"@
}

/// The text of a mirrored comment.
pub open spec fn mirrored_text(id: u64, author: Seq<char>, body: Seq<char>) -> Seq<char> {
    "GitHub comment by @"@ + author + ":\n\n"@ + body + "\n\n<!-- "@ + marker() + decimal(id as nat)
        + " -->"@
}

/// `part` stands in `s` at `at` and nowhere before.
pub open spec fn is_first_at(s: Seq<char>, part: Seq<char>, at: int) -> bool {
    &&& occurs_at(s, part, at)
    &&& forall|k: int| 0 <= k < at ==> !occurs_at(s, part, k)
}

/// The digits at the start of `s`.
pub open spec fn leading_digits(s: Seq<char>) -> Seq<char> {
    s.take(run_len(s, non_digit()) as int)
}

/// The GitHub comment id that `message` carries: the number behind the first marker.
pub open spec fn comment_id_in(message: Seq<char>) -> Option<u64> {
    if contains_text(message, marker()) {
        let at = choose|at: int| is_first_at(message, marker(), at);
        read_u64(leading_digits(message.skip(at + marker().len())))
    } else {
        None
    }
}

/// The text under which a GitHub comment is mirrored on the board.
pub fn format_mirrored_github_comment(
    github_comment_id: u64,
    author_login: &str,
    body: &str,
) -> (r: String)
    ensures
        r@ == mirrored_text(github_comment_id, author_login@, body@),
{
    let mut r = String::from_str("GitHub comment by @");
    r.append(author_login);
    r.append(":\n\n");
    r.append(body);
    r.append("\n\n<!-- ");
    r.append("vibe-kanban-github-comment-id:");
    push_decimal(&mut r, github_comment_id);
    r.append(" -->");
    r
}

/// The GitHub comment id that a Kanban message carries, if it mirrors a GitHub comment.
pub fn github_comment_id_from_kanban_message(message: &str) -> (r: Option<u64>)
    ensures
        r == comment_id_in(message@),
{
    let chars = chars_of(message);
    let wanted = chars_of("vibe-kanban-github-comment-id:");
    match find_in(&chars, &wanted) {
        Some(at) => {
            proof {
                let first = choose|k: int| is_first_at(message@, marker(), k);
                assert(is_first_at(message@, marker(), at as int));
                assert(is_first_at(message@, marker(), first));
                if first < at {
                    assert(!occurs_at(message@, marker(), first));
                } else if first > at {
                    assert(!occurs_at(message@, marker(), at as int));
                }
            }
            assert(at + wanted.len() <= chars.len());
            let start: usize = at + wanted.len();
            let mut end: usize = start;
            while end < chars.len() && '0' <= chars[end] && chars[end] <= '9'
                invariant
                    start <= end <= chars@.len(),
                    forall|i: int| start <= i < end ==> is_digit(#[trigger] chars@[i]),
                ensures
                    start <= end <= chars@.len(),
                    forall|i: int| start <= i < end ==> is_digit(#[trigger] chars@[i]),
                    end < chars@.len() ==> !is_digit(chars@[end as int]),
                decreases chars@.len() - end,
            {
                end += 1;
            }
            proof {
                let tail = message@.skip(start as int);
                assert forall|i: int| 0 <= i < end - start implies !non_digit()(
                    #[trigger] tail[i],
                ) by {
                    assert(tail[i] == chars@[start + i]);
                }
                lemma_run_len_is(tail, non_digit(), end - start);
                assert(leading_digits(tail) =~= chars@.subrange(start as int, end as int));
            }
            let digits = string_of(&chars, start, end);
            parse_u64(digits.as_str())
        },
        None => None,
    }
}

/// Writing a number in base ten and reading it gives the number back.
proof fn lemma_decimal_round_trip(n: nat)
    ensures
        decimal(n).len() > 0,
        all_digits(decimal(n)),
        decimal_value(decimal(n)) == n,
    decreases n,
{
    if n < 10 {
        assert(decimal(n).drop_last() =~= Seq::<char>::empty());
        assert(decimal_value(Seq::<char>::empty()) == 0);
    } else {
        lemma_decimal_round_trip(n / 10);
        let last = digit_char(n % 10);
        assert(decimal(n).drop_last() =~= decimal(n / 10));
        assert(decimal(n).last() == last);
    }
}

/// No line feed, space or at sign stands in the marker.
proof fn lemma_marker()
    ensures
        marker().len() == 30,
        forall|i: int|
            0 <= i < 30 ==> {
                let c = #[trigger] marker()[i];
                c != '\n' && c != ' ' && c != '@'
            },
{
    reveal_strlit("vibe-kanban-github-comment-id:");
}

/// The comment id that was written into a mirrored comment is the one read back from it. The
/// author and the body must not hold the marker themselves, nor may the author end in it but for
/// the colon that follows: the first marker in the message decides.
pub proof fn law_comment_id_round_trip(id: u64, author: Seq<char>, body: Seq<char>)
    requires
        !contains_text(author + ":"@, marker()),
        !contains_text(body, marker()),
    ensures
        comment_id_in(mirrored_text(id, author, body)) == Some(id),
{
    reveal_strlit("GitHub comment by @");
    reveal_strlit(":\n\n");
    reveal_strlit("\n\n<!-- ");
    reveal_strlit(" -->");
    reveal_strlit(":");
    lemma_marker();
    let message = mirrored_text(id, author, body);
    let digits = decimal(id as nat);
    let body_at: int = 19 + author.len() as int + 3;
    let body_end: int = body_at + body.len() as int;
    let at: int = body_end + 7;
    assert(message.subrange(at, at + 30) =~= marker());
    assert(occurs_at(message, marker(), at));
    assert forall|k: int| 0 <= k < at implies !occurs_at(message, marker(), k) by {
        if occurs_at(message, marker(), k) {
            let found = message.subrange(k, k + 30);
            assert forall|i: int| k <= i < k + 30 implies message[i] == #[trigger] marker()[i
                - k] by {
                assert(found[i - k] == message[i]);
            }
            if k < 19 {
                assert(message[18] == '@');
                assert(message[18] == marker()[18 - k]);
            } else if k < 19 + author.len() + 1 {
                let colon: int = 19 + author.len() as int;
                if k + 30 <= colon + 1 {
                    let line = author + ":"@;
                    assert(line.subrange(k - 19, k - 19 + 30) =~= found) by {
                        assert forall|i: int| 0 <= i < 30 implies line[k - 19 + i]
                            == found[i] by {
                            assert(found[i] == message[k + i]);
                        }
                    }
                    assert(occurs_at(line, marker(), k - 19));
                } else {
                    assert(message[colon + 1] == '\n');
                    assert(message[colon + 1] == marker()[colon + 1 - k]);
                }
            } else if k < body_at {
                assert(message[k] == '\n');
                assert(message[k] == marker()[0]);
            } else if k < body_end {
                if k + 30 <= body_end {
                    assert(body.subrange(k - body_at, k - body_at + 30) =~= found) by {
                        assert forall|i: int| 0 <= i < 30 implies body[k - body_at + i]
                            == found[i] by {
                            assert(found[i] == message[k + i]);
                        }
                    }
                    assert(occurs_at(body, marker(), k - body_at));
                } else {
                    assert(message[body_end] == '\n');
                    assert(message[body_end] == marker()[body_end - k]);
                }
            } else {
                assert(message[at - 1] == ' ');
                assert(message[at - 1] == marker()[at - 1 - k]);
            }
        }
    }
    assert(is_first_at(message, marker(), at));
    let first = choose|k: int| is_first_at(message, marker(), k);
    assert(first == at) by {
        if first < at {
            assert(!occurs_at(message, marker(), first));
        } else if first > at {
            assert(!occurs_at(message, marker(), at));
        }
    }
    let tail = message.skip(at + 30);
    assert(tail =~= digits + " -->"@);
    lemma_decimal_round_trip(id as nat);
    assert forall|i: int| 0 <= i < digits.len() implies !non_digit()(#[trigger] tail[i]) by {
        assert(tail[i] == digits[i]);
    }
    lemma_run_len_is(tail, non_digit(), digits.len() as int);
    assert(leading_digits(tail) =~= digits);
}

/// The number that stands behind the first marker in a message is the comment id of the message,
/// as far as its digits go; a message without the marker has none.
pub proof fn law_comment_id_stands_behind_the_marker(message: Seq<char>, at: int, end: int)
    ensures
        !contains_text(message, "vibe-kanban-github-comment-id:"@) ==> comment_id_in(message) is None,
        occurs_at(message, "vibe-kanban-github-comment-id:"@, at) && (forall|k: int|
            0 <= k < at ==> !occurs_at(message, "vibe-kanban-github-comment-id:"@, k)) && at + 30
            <= end <= message.len() && (forall|i: int|
            at + 30 <= i < end ==> '0' <= #[trigger] message[i] <= '9') && (end < message.len()
            ==> !('0' <= message[end] <= '9')) ==> comment_id_in(message) == read_u64(
            message.subrange(at + 30, end),
        ),
{
    lemma_marker();
    if occurs_at(message, "vibe-kanban-github-comment-id:"@, at) && (forall|k: int|
        0 <= k < at ==> !occurs_at(message, "vibe-kanban-github-comment-id:"@, k)) && at + 30 <= end
        <= message.len() && (forall|i: int|
        at + 30 <= i < end ==> '0' <= #[trigger] message[i] <= '9') && (end < message.len() ==> !(
    '0' <= message[end] <= '9')) {
        assert(is_first_at(message, marker(), at));
        let first = choose|k: int| is_first_at(message, marker(), k);
        if first < at {
            assert(!occurs_at(message, marker(), first));
        } else if first > at {
            assert(!occurs_at(message, marker(), at));
        }
        let tail = message.skip(at + 30);
        assert forall|i: int| 0 <= i < end - at - 30 implies !non_digit()(#[trigger] tail[i]) by {
            assert(tail[i] == message[at + 30 + i]);
        }
        lemma_run_len_is(tail, non_digit(), end - at - 30);
        assert(leading_digits(tail) =~= message.subrange(at + 30, end));
    }
}

/// A mirrored comment tells who wrote it and what, and ends with its marked number.
pub proof fn law_mirrored_comments_tell_author_and_body(
    id: u64,
    author: Seq<char>,
    body: Seq<char>,
)
    ensures
        mirrored_text(id, author, body) == "GitHub comment by @"@ + author + ":\n\n"@ + body
            + "\n\n<!-- "@ + "vibe-kanban-github-comment-id:"@ + decimal(id as nat) + " -->"@,
{
}

} // verus!
