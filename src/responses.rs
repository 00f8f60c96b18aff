//! The reply catalog: numeric status codes and the exact reply lines sent
//! to the client, each ending in CR LF.
use vstd::prelude::*;

verus! {

/// The codes for which the catalog holds a reply line.
pub open spec fn is_catalog_code(code: u16) -> bool {
    code == 211 || code == 220 || code == 221 || code == 250 || code == 354 || code == 500
        || code == 502
}

/// The reply line for a catalog code.
pub open spec fn catalog_text(code: u16) -> Seq<char> {
    if code == 211 {
        "211 System status, or system help reply\r\n"@
    } else if code == 220 {
        "220 Service ready\r\n"@
    } else if code == 221 {
        "221 Service closing transmission channel\r\n"@
    } else if code == 250 {
        "250 Requested mail action okay, completed\r\n"@
    } else if code == 354 {
        "354 Start mail input; end with <CRLF>.<CRLF>\r\n"@
    } else if code == 500 {
        "500 Syntax error, command unrecognized\r\n"@
    } else {
        "502 Command not implemented\r\n"@
    }
}

/// The reply line for `code`, or `None` when the catalog has no entry for it.
pub fn text_for(code: u16) -> (r: Option<&'static str>)
    ensures
        r is Some <==> is_catalog_code(code),
        r is Some ==> r->0@ == catalog_text(code),
{
    if code == 211 {
        Some("211 System status, or system help reply\r\n")
    } else if code == 220 {
        Some("220 Service ready\r\n")
    } else if code == 221 {
        Some("221 Service closing transmission channel\r\n")
    } else if code == 250 {
        Some("250 Requested mail action okay, completed\r\n")
    } else if code == 354 {
        Some("354 Start mail input; end with <CRLF>.<CRLF>\r\n")
    } else if code == 500 {
        Some("500 Syntax error, command unrecognized\r\n")
    } else if code == 502 {
        Some("502 Command not implemented\r\n")
    } else {
        None
    }
}

} // verus!
