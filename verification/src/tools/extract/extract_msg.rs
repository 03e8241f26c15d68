//! The pure side of email extraction: address formatting and the markdown
//! rendering of a message's headers and body. Parsing the mail container
//! and writing files happen in the surrounding runtime, which hands the
//! fields over as plain values.

use vstd::prelude::*;
use vstd::string::{StrSliceExecFns, StringExecFns};

verus! {

/// What html2md turns the given HTML into; the input alone determines it.
pub uninterp spec fn markdown_of_html(html: Seq<char>) -> Seq<char>;

/// Relies on html2md::parse_html: converts HTML to markdown; the result
/// depends on the input alone.
#[verifier::external_body]
fn html_to_markdown(html: &str) -> (r: String)
    ensures
        r@ == markdown_of_html(html@),
{
    html2md::parse_html(html)
}

/// The given HTML with every comment removed; the input alone determines it.
pub uninterp spec fn without_html_comments(html: Seq<char>) -> Seq<char>;

/// Relies on regex::Regex::replace_all with the fixed pattern
/// `(?s)<!--.*?-->`: removes HTML comments; the result depends on the input
/// alone. The pattern is a valid constant, so building it cannot fail.
#[verifier::external_body]
fn strip_html_comments(html: &str) -> (r: String)
    ensures
        r@ == without_html_comments(html@),
{
    let re = regex::Regex::new(r"(?s)<!--.*?-->").unwrap();
    re.replace_all(html, "").into_owned()
}

/// Converts an HTML body to markdown after stripping its comments.
pub fn html_body_markdown(html: &str) -> (r: String)
    ensures
        r@ == markdown_of_html(without_html_comments(html@)),
{
    let cleaned = strip_html_comments(html);
    html_to_markdown(cleaned.as_str())
}

/// The display form of one address: the bare address when the name is empty
/// or repeats it, else `name <address>`.
pub open spec fn address_chars(name: Seq<char>, address: Seq<char>) -> Seq<char> {
    if name.len() == 0 || name == address {
        address
    } else {
        name + " <"@ + address + ">"@
    }
}

/// The display form of an address list, comma-separated.
pub open spec fn addresses_chars(addrs: Seq<(Seq<char>, Seq<char>)>) -> Seq<char>
    decreases addrs.len(),
{
    if addrs.len() == 0 {
        Seq::empty()
    } else if addrs.len() == 1 {
        address_chars(addrs[0].0, addrs[0].1)
    } else {
        addresses_chars(addrs.drop_last()) + ", "@ + address_chars(
            addrs.last().0,
            addrs.last().1,
        )
    }
}

/// Formats an address list for an email header line: each entry as
/// `name <address>` — or the bare address when the name is empty or equals
/// it — joined by commas.
pub fn format_addresses(addresses: &Vec<(String, String)>) -> (r: String)
    ensures
        r@ == addresses_chars(addresses.deep_view()),
{
    let ghost target = addresses.deep_view();
    let mut out = String::new();
    let mut i: usize = 0;
    proof {
        assert(target.take(0) =~= Seq::<(Seq<char>, Seq<char>)>::empty());
        assert(out@ =~= addresses_chars(target.take(0)));
    }
    while i < addresses.len()
        invariant
            0 <= i <= addresses@.len(),
            target == addresses.deep_view(),
            target.len() == addresses@.len(),
            out@ == addresses_chars(target.take(i as int)),
        decreases addresses@.len() - i,
    {
        proof {
            assert(target[i as int] == (addresses@[i as int].0@, addresses@[i as int].1@));
        }
        if i > 0 {
            out.append(", ");
        }
        let name = &addresses[i].0;
        let address = &addresses[i].1;
        if name.as_str().unicode_len() == 0 || crate::textfmt::str_eq(
            name.as_str(),
            address.as_str(),
        ) {
            out.append(address.as_str());
        } else {
            out.append(name.as_str());
            out.append(" <");
            out.append(address.as_str());
            out.append(">");
        }
        proof {
            let t1 = target.take(i as int + 1);
            assert(t1.drop_last() =~= target.take(i as int));
            assert(t1.last() == target[i as int]);
            if i == 0 {
                assert(out@ =~= addresses_chars(t1));
            } else {
                assert(out@ =~= addresses_chars(t1));
            }
        }
        i = i + 1;
    }
    proof {
        assert(target.take(target.len() as int) =~= target);
    }
    out
}

/// An email's body as the parser handed it over: HTML to be converted, or
/// plain text to be written as it stands.
#[derive(Debug)]
pub enum EmailBody {
    Html(String),
    Text(String),
}

/// The markdown a body renders to: HTML is stripped of comments and
/// converted, plain text stands as it is, and either gets its final
/// newline; an absent body renders to nothing.
pub open spec fn body_markdown_chars(b: Option<EmailBody>) -> Seq<char> {
    match b {
        Some(EmailBody::Html(html)) => markdown_of_html(without_html_comments(html@)) + "\n"@,
        Some(EmailBody::Text(t)) => t@ + "\n"@,
        None => Seq::empty(),
    }
}

/// One optional header line: `label` followed by the value and a newline,
/// or nothing when the value is absent.
pub open spec fn header_line_chars(label: Seq<char>, value: Option<Seq<char>>) -> Seq<char> {
    match value {
        Some(v) => label + v + "\n"@,
        None => Seq::empty(),
    }
}

/// The markdown rendering of an email: its header lines, a separator, and
/// its body.
pub open spec fn email_markdown_chars(
    from: Option<Seq<char>>,
    sent: Option<Seq<char>>,
    to: Option<Seq<char>>,
    cc: Option<Seq<char>>,
    bcc: Option<Seq<char>>,
    subject: Option<Seq<char>>,
    body: Option<EmailBody>,
) -> Seq<char> {
    header_line_chars("From: "@, from) + header_line_chars("Sent: "@, sent) + header_line_chars(
        "To: "@,
        to,
    ) + header_line_chars("CC: "@, cc) + header_line_chars("BCC: "@, bcc) + header_line_chars(
        "Subject: "@,
        subject,
    ) + "\n---\n"@ + body_markdown_chars(body)
}

/// Appends one optional header line.
fn push_header(out: &mut String, label: &str, value: &Option<String>)
    ensures
        final(out)@ == old(out)@ + header_line_chars(
            label@,
            match value {
                Some(v) => Some(v@),
                None => None,
            },
        ),
{
    match value {
        Some(v) => {
            out.append(label);
            out.append(v.as_str());
            out.append("\n");
        },
        None => {},
    }
    proof {
        assert(final(out)@ =~= old(out)@ + header_line_chars(
            label@,
            match value {
                Some(v) => Some(v@),
                None => None,
            },
        ));
    }
}

/// Renders an email's headers and body as the markdown file the extraction
/// writes out.
#[verifier::rlimit(30)]
pub fn email_markdown(
    from: &Option<String>,
    sent: &Option<String>,
    to: &Option<String>,
    cc: &Option<String>,
    bcc: &Option<String>,
    subject: &Option<String>,
    body: Option<EmailBody>,
) -> (r: String)
    ensures
        r@ == email_markdown_chars(
            from.deep_view(),
            sent.deep_view(),
            to.deep_view(),
            cc.deep_view(),
            bcc.deep_view(),
            subject.deep_view(),
            body,
        ),
{
    let mut out = String::new();
    push_header(&mut out, "From: ", from);
    push_header(&mut out, "Sent: ", sent);
    push_header(&mut out, "To: ", to);
    push_header(&mut out, "CC: ", cc);
    push_header(&mut out, "BCC: ", bcc);
    push_header(&mut out, "Subject: ", subject);
    out.append("\n---\n");
    let ghost body_v = body;
    match body {
        Some(EmailBody::Html(html)) => {
            let md = html_body_markdown(html.as_str());
            out.append(md.as_str());
            out.append("\n");
        },
        Some(EmailBody::Text(t)) => {
            out.append(t.as_str());
            out.append("\n");
        },
        None => {},
    }
    proof {
        assert(out@ =~= email_markdown_chars(
            from.deep_view(),
            sent.deep_view(),
            to.deep_view(),
            cc.deep_view(),
            bcc.deep_view(),
            subject.deep_view(),
            body_v,
        ));
    }
    out
}

} // verus!
