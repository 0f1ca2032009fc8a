//! The command language spoken in issue comments: a comment body is parsed
//! into an `RfcBotCommand` or rejected. `parse_cmd` is the authoritative
//! specification of the grammar; `RfcBotCommand::from_str` is the executable
//! parser, proved to agree with it on every input.

use vstd::prelude::*;

use crate::text::{
    find_line_end, find_non_ws, find_token_end, is_ws_char, lemma_scan_line_end,
    lemma_scan_token_end, scan_line_end, scan_non_ws, scan_token_end, str_eq, trim_substring,
    trim_ws,
};

verus! {

/// The disposition an FCP proposal asks for.
#[derive(Clone, Copy, Debug, Eq, PartialEq, Structural)]
pub enum FcpDisposition {
    Merge,
    Close,
    Postpone,
}

pub open spec fn disposition_repr(d: FcpDisposition) -> Seq<char> {
    match d {
        FcpDisposition::Merge => "merge"@,
        FcpDisposition::Close => "close"@,
        FcpDisposition::Postpone => "postpone"@,
    }
}

impl FcpDisposition {
    pub fn repr(self) -> (r: &'static str)
        ensures
            r@ == disposition_repr(self),
    {
        match self {
            FcpDisposition::Merge => "merge",
            FcpDisposition::Close => "close",
            FcpDisposition::Postpone => "postpone",
        }
    }
}

/// Why a comment body is not a bot command.
#[derive(Clone, Copy, Debug, Eq, PartialEq, Structural)]
pub enum ParseError {
    /// The body does not open with the bot mention: not a command at all.
    NotAddressed,
    /// The mention is there but the invocation is not recognized.
    UnknownCommand,
    /// A recognized invocation with an ill-formed argument.
    MalformedArgument,
}

/// A parsed bot command.
#[derive(Debug, Eq, PartialEq)]
pub enum RfcBotCommand {
    FcpPropose(FcpDisposition),
    FcpCancel,
    Reviewed,
    NewConcern(String),
    ResolveConcern(String),
    FeedbackRequest(String),
}

/// The mathematical shape of a parsed command.
pub enum CommandView {
    FcpPropose(FcpDisposition),
    FcpCancel,
    Reviewed,
    NewConcern(Seq<char>),
    ResolveConcern(Seq<char>),
    FeedbackRequest(Seq<char>),
}

impl View for RfcBotCommand {
    type V = CommandView;

    open spec fn view(&self) -> CommandView {
        match self {
            RfcBotCommand::FcpPropose(d) => CommandView::FcpPropose(*d),
            RfcBotCommand::FcpCancel => CommandView::FcpCancel,
            RfcBotCommand::Reviewed => CommandView::Reviewed,
            RfcBotCommand::NewConcern(n) => CommandView::NewConcern(n@),
            RfcBotCommand::ResolveConcern(n) => CommandView::ResolveConcern(n@),
            RfcBotCommand::FeedbackRequest(l) => CommandView::FeedbackRequest(l@),
        }
    }
}

pub open spec fn cmd_result_view(r: Result<RfcBotCommand, ParseError>) -> Result<
    CommandView,
    ParseError,
> {
    match r {
        Ok(c) => Ok(c@),
        Err(e) => Err(e),
    }
}

/// The literal that addresses the bot.
pub open spec fn mention() -> Seq<char> {
    "@rfcbot"@
}

/// The argument of `concern`/`resolved`: everything after the invocation
/// word on the first line only, trimmed.
pub open spec fn concern_arg(cmd: Seq<char>) -> Seq<char> {
    let te = scan_token_end(cmd, 0);
    let le = scan_line_end(cmd, 0);
    trim_ws(cmd.subrange(te, le))
}

/// Grammar of the text after the mention (already trimmed): the first
/// whitespace-delimited token is the invocation and decides the command.
pub open spec fn parse_invocation(cmd: Seq<char>) -> Result<CommandView, ParseError> {
    let te = scan_token_end(cmd, 0);
    let inv = cmd.subrange(0, te);
    if inv.len() == 0 {
        Err(ParseError::UnknownCommand)
    } else if inv == "fcp"@ {
        let s2 = scan_non_ws(cmd, te);
        let e2 = scan_token_end(cmd, s2);
        let sub = cmd.subrange(s2, e2);
        if sub == "merge"@ {
            Ok(CommandView::FcpPropose(FcpDisposition::Merge))
        } else if sub == "close"@ {
            Ok(CommandView::FcpPropose(FcpDisposition::Close))
        } else if sub == "postpone"@ {
            Ok(CommandView::FcpPropose(FcpDisposition::Postpone))
        } else if sub == "cancel"@ {
            Ok(CommandView::FcpCancel)
        } else {
            Err(ParseError::UnknownCommand)
        }
    } else if inv == "concern"@ {
        Ok(CommandView::NewConcern(concern_arg(cmd)))
    } else if inv == "resolved"@ {
        Ok(CommandView::ResolveConcern(concern_arg(cmd)))
    } else if inv == "reviewed"@ {
        Ok(CommandView::Reviewed)
    } else if inv == "f?"@ {
        let s2 = scan_non_ws(cmd, te);
        let e2 = scan_token_end(cmd, s2);
        let tok = cmd.subrange(s2, e2);
        if tok.len() >= 2 && tok[0] == '@' {
            Ok(CommandView::FeedbackRequest(tok.skip(1)))
        } else {
            Err(ParseError::MalformedArgument)
        }
    } else {
        Err(ParseError::UnknownCommand)
    }
}

/// What parsing a whole comment body means: the body must open with the
/// mention; one optional `:` right after it and surrounding whitespace are
/// dropped; the rest is read by `parse_invocation`.
pub open spec fn parse_cmd(body: Seq<char>) -> Result<CommandView, ParseError> {
    if body.len() < mention().len() || body.subrange(0, mention().len() as int) != mention() {
        Err(ParseError::NotAddressed)
    } else {
        let rest = body.skip(mention().len() as int);
        let rest2 = if rest.len() > 0 && rest[0] == ':' {
            rest.skip(1)
        } else {
            rest
        };
        parse_invocation(trim_ws(rest2))
    }
}

impl RfcBotCommand {
    /// Parse one comment body, exactly as `parse_cmd` describes.
    pub fn from_str(command: &str) -> (r: Result<RfcBotCommand, ParseError>)
        ensures
            cmd_result_view(r) == parse_cmd(command@),
    {
        let n = command.unicode_len();
        proof {
            reveal_strlit("@rfcbot");
        }
        if n < 7 {
            return Err(ParseError::NotAddressed);
        }
        let mention_lit = "@rfcbot";
        let mut i: usize = 0;
        while i < 7
            invariant
                i <= 7,
                n == command@.len(),
                n >= 7,
                mention_lit@ == mention(),
                mention().len() == 7,
                forall|j: int| 0 <= j < i ==> command@[j] == mention()[j],
            decreases 7 - i,
        {
            if command.get_char(i) != mention_lit.get_char(i) {
                proof {
                    assert(command@.subrange(0, 7)[i as int] != mention()[i as int]);
                }
                return Err(ParseError::NotAddressed);
            }
            i = i + 1;
        }
        proof {
            assert(command@.subrange(0, 7) =~= mention());
        }
        let start: usize = if n > 7 && command.get_char(7) == ':' {
            8
        } else {
            7
        };
        let ghost rest = command@.skip(7);
        let ghost rest2 = if rest.len() > 0 && rest[0] == ':' {
            rest.skip(1)
        } else {
            rest
        };
        proof {
            assert(rest2 =~= command@.subrange(start as int, n as int));
        }
        let cmd_string = trim_substring(command, start, n);
        let cmd = cmd_string.as_str();
        proof {
            assert(cmd@ == trim_ws(rest2));
        }
        let te = find_token_end(cmd, 0);
        let inv = cmd.substring_char(0, te);
        if te == 0 {
            proof {
                assert(cmd@.subrange(0, 0).len() == 0);
            }
            return Err(ParseError::UnknownCommand);
        }
        if str_eq(inv, "fcp") {
            let s2 = find_non_ws(cmd, te);
            let e2 = find_token_end(cmd, s2);
            let sub = cmd.substring_char(s2, e2);
            if str_eq(sub, "merge") {
                Ok(RfcBotCommand::FcpPropose(FcpDisposition::Merge))
            } else if str_eq(sub, "close") {
                Ok(RfcBotCommand::FcpPropose(FcpDisposition::Close))
            } else if str_eq(sub, "postpone") {
                Ok(RfcBotCommand::FcpPropose(FcpDisposition::Postpone))
            } else if str_eq(sub, "cancel") {
                Ok(RfcBotCommand::FcpCancel)
            } else {
                Err(ParseError::UnknownCommand)
            }
        } else if str_eq(inv, "concern") {
            let name = first_line_arg(cmd, te);
            Ok(RfcBotCommand::NewConcern(name))
        } else if str_eq(inv, "resolved") {
            let name = first_line_arg(cmd, te);
            Ok(RfcBotCommand::ResolveConcern(name))
        } else if str_eq(inv, "reviewed") {
            Ok(RfcBotCommand::Reviewed)
        } else if str_eq(inv, "f?") {
            let s2 = find_non_ws(cmd, te);
            let e2 = find_token_end(cmd, s2);
            let sub = cmd.substring_char(s2, e2);
            let sl = sub.unicode_len();
            if sl >= 2 && sub.get_char(0) == '@' {
                let login = String::from_str(sub.substring_char(1, sl));
                proof {
                    assert(login@ =~= cmd@.subrange(s2 as int, e2 as int).skip(1));
                }
                Ok(RfcBotCommand::FeedbackRequest(login))
            } else {
                Err(ParseError::MalformedArgument)
            }
        } else {
            Err(ParseError::UnknownCommand)
        }
    }
}

/// A body that does not open with the mention never parses: it fails with
/// `NotAddressed`, whatever else it holds and however short it is.
pub proof fn lemma_not_addressed(body: Seq<char>)
    requires
        body.len() < mention().len() || body.subrange(0, mention().len() as int) != mention(),
    ensures
        parse_cmd(body) == Err::<CommandView, ParseError>(ParseError::NotAddressed),
{
}

/// Parsing is insensitive to the optional `:` after the mention: a body
/// with the colon and one without it (the rest not itself starting with a
/// colon) parse to the same outcome.
pub proof fn lemma_colon_insensitive(rest: Seq<char>)
    requires
        rest.len() == 0 || rest[0] != ':',
    ensures
        parse_cmd(mention() + seq![':'] + rest) == parse_cmd(mention() + rest),
{
    reveal_strlit("@rfcbot");
    let a = mention() + seq![':'] + rest;
    let b = mention() + rest;
    assert(a.subrange(0, 7) =~= mention());
    assert(b.subrange(0, 7) =~= mention());
    let ra = a.skip(7);
    let rb = b.skip(7);
    assert(ra =~= seq![':'] + rest);
    assert(rb =~= rest);
    assert(ra[0] == ':');
    assert(ra.skip(1) =~= rest);
}

/// Extract the `concern`/`resolved` argument: the rest of the first line
/// after the invocation token ending at `te`, trimmed.
fn first_line_arg(cmd: &str, te: usize) -> (r: String)
    requires
        te == scan_token_end(cmd@, 0),
    ensures
        r@ == concern_arg(cmd@),
{
    let le = find_line_end(cmd, 0);
    proof {
        lemma_scan_token_end(cmd@, 0);
        lemma_scan_line_end(cmd@, 0);
        if le < te {
            assert(!is_ws_char(cmd@[le as int]));
            assert(cmd@[le as int] == '\n');
        }
    }
    trim_substring(cmd, te, le)
}

} // verus!
