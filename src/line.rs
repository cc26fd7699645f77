use vstd::prelude::*;
use vstd::string::*;

use crate::level::LogType;

verus! {

/// The text with a newline added unless it already ends in one.
pub open spec fn terminated(s: Seq<char>) -> Seq<char> {
    if s.len() > 0 && s.last() == '\n' {
        s
    } else {
        s.push('\n')
    }
}

/// A terminated line ends in a newline, and differs from the text at most by
/// one newline added at its end: none where the text ended in one already.
pub proof fn lemma_single_newline(s: Seq<char>)
    ensures
        terminated(s).len() > 0,
        terminated(s).last() == '\n',
        s.len() > 0 && s.last() == '\n' ==> terminated(s) == s,
        !(s.len() > 0 && s.last() == '\n') ==> terminated(s).drop_last() == s,
        terminated(terminated(s)) == terminated(s),
{
    assert(s.push('\n').drop_last() =~= s);
}

/// One log line: timestamp, severity token and message, separated by single
/// spaces and ended by exactly one added newline at most.
pub open spec fn record_line(ts: Seq<char>, level: LogType, msg: Seq<char>) -> Seq<char> {
    terminated(ts + seq![' '] + level.token() + seq![' '] + msg)
}

/// In every line the severity token follows the timestamp and one space, and
/// the message follows the token and one space.
pub proof fn lemma_token_after_timestamp(ts: Seq<char>, level: LogType, msg: Seq<char>)
    ensures
        record_line(ts, level, msg).subrange(0, ts.len() as int) == ts,
        record_line(ts, level, msg)[ts.len() as int] == ' ',
        record_line(ts, level, msg).subrange(ts.len() as int + 1, ts.len() as int + 5) == level.token(),
        record_line(ts, level, msg)[ts.len() as int + 5] == ' ',
        record_line(ts, level, msg).subrange(ts.len() as int + 6, ts.len() as int + 6 + msg.len() as int) == msg,
{
    let body = ts + seq![' '] + level.token() + seq![' '] + msg;
    assert(level.token().len() == 4);
    assert(body.subrange(0, ts.len() as int) =~= ts);
    assert(body.subrange(ts.len() as int + 1, ts.len() as int + 5) =~= level.token());
    assert(body.subrange(ts.len() as int + 6, ts.len() as int + 6 + msg.len() as int) =~= msg);
    lemma_single_newline(body);
    assert(body.push('\n').subrange(0, body.len() as int) =~= body);
    assert(record_line(ts, level, msg).subrange(0, body.len() as int) == body);
    assert(record_line(ts, level, msg).subrange(0, ts.len() as int) =~= body.subrange(0, ts.len() as int));
    assert(record_line(ts, level, msg).subrange(ts.len() as int + 1, ts.len() as int + 5) =~= body.subrange(ts.len() as int + 1, ts.len() as int + 5));
    assert(record_line(ts, level, msg).subrange(ts.len() as int + 6, ts.len() as int + 6 + msg.len() as int) =~= body.subrange(ts.len() as int + 6, ts.len() as int + 6 + msg.len() as int));
}

/// Whether the text ends in a newline.
fn ends_with_newline(s: &str) -> (r: bool)
    ensures
        r == (s@.len() > 0 && s@.last() == '\n'),
{
    let n = s.unicode_len();
    if n == 0 {
        false
    } else {
        s.get_char(n - 1) == '\n'
    }
}

/// Copies the text and ends it with a newline, unless it already ends in one.
pub fn terminate_line(s: &str) -> (r: String)
    ensures
        r@ == terminated(s@),
{
    let mut out = String::from_str(s);
    if !ends_with_newline(s) {
        proof {
            reveal_strlit("\n");
        }
        out.append("\n");
    }
    out
}

/// Formats one log line from a timestamp, a severity and a message.
pub fn format_record(ts: &str, level: LogType, msg: &str) -> (r: String)
    ensures
        r@ == record_line(ts@, level, msg@),
{
    proof {
        reveal_strlit(" ");
    }
    let mut body = String::from_str(ts);
    body.append(" ");
    body.append(level.as_str());
    body.append(" ");
    body.append(msg);
    terminate_line(body.as_str())
}

} // verus!
