//! Normalized shortcut and domain records and their XML and YAML renderings.

use vstd::prelude::*;
use crate::trusted::push_char;
use crate::text::{chars_of, decimal, push_decimal, push_str, push_bool, bool_text};

verus! {

/// One shortcut as listed: `host/tail`, target, and visits when requested.
#[derive(Debug)]
pub struct ShortcutRow {
    pub shortcut: String,
    pub target: String,
    pub visits: Option<u64>,
}

/// One domain as listed, with the optional verbose fields.
#[derive(Debug)]
pub struct DomainRow {
    pub id: String,
    pub hostname: String,
    pub status: String,
    pub owner_name: Option<String>,
    pub owner_email: Option<String>,
    pub vercel_verified: Option<bool>,
    pub vercel_misconfigured: Option<bool>,
    pub last_checked_at: Option<String>,
    pub last_error: Option<String>,
    pub visits: Option<u64>,
}

/// XML text for one character.
pub open spec fn xml_char(c: char) -> Seq<char> {
    if c == '&' {
        "&amp;"@
    } else if c == '<' {
        "&lt;"@
    } else if c == '>' {
        "&gt;"@
    } else if c == '"' {
        "&quot;"@
    } else if c == '\'' {
        "&apos;"@
    } else {
        seq![c]
    }
}

/// `s` with `& < > " '` written as XML entities.
pub open spec fn xml_escaped(s: Seq<char>) -> Seq<char>
    decreases s.len(),
{
    if s.len() == 0 {
        Seq::empty()
    } else {
        xml_escaped(s.drop_last()) + xml_char(s.last())
    }
}

/// Appends `s` with XML entities for `& < > " '`.
pub fn push_xml_escaped(out: &mut String, s: &str)
    ensures
        final(out)@ == old(out)@ + xml_escaped(s@),
{
    let v = chars_of(s);
    let ghost start = out@;
    let mut i: usize = 0;
    while i < v.len()
        invariant
            v@ == s@,
            i <= v.len(),
            out@ == start + xml_escaped(s@.take(i as int)),
        decreases v.len() - i,
    {
        let c = v[i];
        proof {
            assert(s@.take(i + 1).drop_last() =~= s@.take(i as int));
            assert(s@.take(i + 1).last() == c);
        }
        if c == '&' {
            push_str(out, "&amp;");
        } else if c == '<' {
            push_str(out, "&lt;");
        } else if c == '>' {
            push_str(out, "&gt;");
        } else if c == '"' {
            push_str(out, "&quot;");
        } else if c == '\'' {
            push_str(out, "&apos;");
        } else {
            push_char(out, c);
            assert(seq![c] =~= xml_char(c));
        }
        i = i + 1;
        assert(out@ =~= start + xml_escaped(s@.take(i as int)));
    }
    assert(s@.take(v.len() as int) =~= s@);
}

/// Escapes `& < > " '` for XML text and attributes.
pub fn xml_escape(value: &str) -> (r: String)
    ensures
        r@ == xml_escaped(value@),
{
    let mut r = String::new();
    push_xml_escaped(&mut r, value);
    r
}

/// YAML double-quoted text for one character.
pub open spec fn yaml_char(c: char) -> Seq<char> {
    if c == '\\' {
        "\\\\"@
    } else if c == '"' {
        "\\\""@
    } else {
        seq![c]
    }
}

pub open spec fn yaml_escaped(s: Seq<char>) -> Seq<char>
    decreases s.len(),
{
    if s.len() == 0 {
        Seq::empty()
    } else {
        yaml_escaped(s.drop_last()) + yaml_char(s.last())
    }
}

/// `s` as a double-quoted YAML scalar.
pub open spec fn yaml_quoted(s: Seq<char>) -> Seq<char> {
    "\""@ + yaml_escaped(s) + "\""@
}

fn push_yaml_scalar(out: &mut String, s: &str)
    ensures
        final(out)@ == old(out)@ + yaml_quoted(s@),
{
    let v = chars_of(s);
    push_str(out, "\"");
    let ghost start = out@;
    let mut i: usize = 0;
    while i < v.len()
        invariant
            v@ == s@,
            i <= v.len(),
            out@ == start + yaml_escaped(s@.take(i as int)),
        decreases v.len() - i,
    {
        let c = v[i];
        proof {
            assert(s@.take(i + 1).drop_last() =~= s@.take(i as int));
            assert(s@.take(i + 1).last() == c);
        }
        if c == '\\' {
            push_str(out, "\\\\");
        } else if c == '"' {
            push_str(out, "\\\"");
        } else {
            push_char(out, c);
            assert(seq![c] =~= yaml_char(c));
        }
        i = i + 1;
        assert(out@ =~= start + yaml_escaped(s@.take(i as int)));
    }
    assert(s@.take(v.len() as int) =~= s@);
    push_str(out, "\"");
    assert(out@ =~= old(out)@ + yaml_quoted(s@));
}

/// Quotes `value` as a YAML double-quoted scalar, escaping `\` and `"`.
pub fn yaml_scalar(value: &str) -> (r: String)
    ensures
        r@ == yaml_quoted(value@),
{
    let mut r = String::new();
    push_yaml_scalar(&mut r, value);
    r
}

/// `host/tail`, or just `host` for an empty tail.
pub open spec fn shortcut_text(hostname: Seq<char>, tail: Seq<char>) -> Seq<char> {
    if tail.len() == 0 {
        hostname
    } else {
        hostname + "/"@ + tail
    }
}

pub fn format_shortcut(hostname: &str, tail: &str) -> (r: String)
    ensures
        r@ == shortcut_text(hostname@, tail@),
{
    let mut r = String::from_str(hostname);
    if tail.unicode_len() > 0 {
        push_str(&mut r, "/");
        push_str(&mut r, tail);
    }
    r
}

/// Visit count line, when present.
pub open spec fn visits_text(indent: Seq<char>, open: Seq<char>, close: Seq<char>, v: Option<u64>) -> Seq<char> {
    match v {
        Some(n) => indent + open + decimal(n as nat) + close,
        None => Seq::empty(),
    }
}

/// XML for one shortcut row.
pub open spec fn shortcut_xml(r: ShortcutRow) -> Seq<char> {
    "  <shortcut>\n"@ + "    <short>"@ + xml_escaped(r.shortcut@) + "</short>\n"@ + "    <target>"@
        + xml_escaped(r.target@) + "</target>\n"@ + visits_text(
        "    "@,
        "<visits>"@,
        "</visits>\n"@,
        r.visits,
    ) + "  </shortcut>\n"@
}

/// Concatenation of `f` over the rows, in order.
pub open spec fn concat_rows(rows: Seq<ShortcutRow>, f: spec_fn(ShortcutRow) -> Seq<char>) -> Seq<char>
    decreases rows.len(),
{
    if rows.len() == 0 {
        Seq::empty()
    } else {
        concat_rows(rows.drop_last(), f) + f(rows.last())
    }
}

pub open spec fn concat_domain_rows(rows: Seq<DomainRow>, f: spec_fn(DomainRow) -> Seq<char>) -> Seq<char>
    decreases rows.len(),
{
    if rows.len() == 0 {
        Seq::empty()
    } else {
        concat_domain_rows(rows.drop_last(), f) + f(rows.last())
    }
}

fn push_visits(out: &mut String, indent: &str, open: &str, close: &str, v: Option<u64>)
    ensures
        final(out)@ == old(out)@ + visits_text(indent@, open@, close@, v),
{
    if let Some(n) = v {
        push_str(out, indent);
        push_str(out, open);
        push_decimal(out, n);
        push_str(out, close);
        assert(final(out)@ =~= old(out)@ + visits_text(indent@, open@, close@, v));
    } else {
        assert(out@ =~= old(out)@ + visits_text(indent@, open@, close@, v));
    }
}

/// Shortcut rows as an XML document.
pub fn shortcuts_xml(rows: &[ShortcutRow]) -> (r: String)
    ensures
        r@ == "<shortcuts>\n"@ + concat_rows(rows@, |x: ShortcutRow| shortcut_xml(x))
            + "</shortcuts>\n"@,
{
    let mut out = String::new();
    push_str(&mut out, "<shortcuts>\n");
    let ghost head = out@;
    let mut i: usize = 0;
    while i < rows.len()
        invariant
            i <= rows@.len(),
            out@ == head + concat_rows(rows@.take(i as int), |x: ShortcutRow| shortcut_xml(x)),
        decreases rows.len() - i,
    {
        let row = &rows[i];
        let ghost before = out@;
        push_str(&mut out, "  <shortcut>\n");
        push_str(&mut out, "    <short>");
        push_xml_escaped(&mut out, row.shortcut.as_str());
        push_str(&mut out, "</short>\n");
        push_str(&mut out, "    <target>");
        push_xml_escaped(&mut out, row.target.as_str());
        push_str(&mut out, "</target>\n");
        push_visits(&mut out, "    ", "<visits>", "</visits>\n", row.visits);
        push_str(&mut out, "  </shortcut>\n");
        proof {
            assert(out@ =~= before + shortcut_xml(*row));
            assert(rows@.take(i + 1).drop_last() =~= rows@.take(i as int));
        }
        i = i + 1;
    }
    assert(rows@.take(rows@.len() as int) =~= rows@);
    push_str(&mut out, "</shortcuts>\n");
    out
}

/// YAML for one shortcut row.
pub open spec fn shortcut_yaml(r: ShortcutRow) -> Seq<char> {
    "- shortcut: "@ + yaml_quoted(r.shortcut@) + "\n"@ + "  target: "@ + yaml_quoted(r.target@)
        + "\n"@ + visits_text(""@, "  visits: "@, "\n"@, r.visits)
}

/// Shortcut rows as a YAML sequence.
pub fn shortcuts_yaml(rows: &[ShortcutRow]) -> (r: String)
    ensures
        r@ == concat_rows(rows@, |x: ShortcutRow| shortcut_yaml(x)),
{
    let mut out = String::new();
    let mut i: usize = 0;
    while i < rows.len()
        invariant
            i <= rows@.len(),
            out@ == concat_rows(rows@.take(i as int), |x: ShortcutRow| shortcut_yaml(x)),
        decreases rows.len() - i,
    {
        let row = &rows[i];
        let ghost before = out@;
        push_str(&mut out, "- shortcut: ");
        push_yaml_scalar(&mut out, row.shortcut.as_str());
        push_str(&mut out, "\n");
        push_str(&mut out, "  target: ");
        push_yaml_scalar(&mut out, row.target.as_str());
        push_str(&mut out, "\n");
        push_visits(&mut out, "", "  visits: ", "\n", row.visits);
        proof {
            assert(out@ =~= before + shortcut_yaml(*row));
            assert(rows@.take(i + 1).drop_last() =~= rows@.take(i as int));
        }
        i = i + 1;
    }
    assert(rows@.take(rows@.len() as int) =~= rows@);
    out
}


/// An optional XML element `<tag>text</tag>` on its own indented line.
pub open spec fn opt_xml_text(tag: Seq<char>, o: Option<String>) -> Seq<char> {
    match o {
        Some(v) => "    <"@ + tag + ">"@ + xml_escaped(v@) + "</"@ + tag + ">\n"@,
        None => Seq::empty(),
    }
}

/// An optional XML element holding `true` or `false`.
pub open spec fn opt_xml_bool(tag: Seq<char>, o: Option<bool>) -> Seq<char> {
    match o {
        Some(b) => "    <"@ + tag + ">"@ + bool_text(b) + "</"@ + tag + ">\n"@,
        None => Seq::empty(),
    }
}

fn push_xml_element(out: &mut String, tag: &str, v: &str)
    ensures
        final(out)@ == old(out)@ + "    <"@ + tag@ + ">"@ + xml_escaped(v@) + "</"@ + tag@ + ">\n"@,
{
    push_str(out, "    <");
    push_str(out, tag);
    push_str(out, ">");
    push_xml_escaped(out, v);
    push_str(out, "</");
    push_str(out, tag);
    push_str(out, ">\n");
}

fn push_opt_xml_text(out: &mut String, tag: &str, o: &Option<String>)
    ensures
        final(out)@ == old(out)@ + opt_xml_text(tag@, *o),
{
    match o {
        Some(v) => push_xml_element(out, tag, v.as_str()),
        None => assert(out@ =~= old(out)@ + opt_xml_text(tag@, *o)),
    }
}

fn push_opt_xml_bool(out: &mut String, tag: &str, o: Option<bool>)
    ensures
        final(out)@ == old(out)@ + opt_xml_bool(tag@, o),
{
    match o {
        Some(b) => {
            push_str(out, "    <");
            push_str(out, tag);
            push_str(out, ">");
            push_bool(out, b);
            push_str(out, "</");
            push_str(out, tag);
            push_str(out, ">\n");
        },
        None => assert(out@ =~= old(out)@ + opt_xml_bool(tag@, o)),
    }
}

/// XML for one domain row.
pub open spec fn domain_xml(r: DomainRow) -> Seq<char> {
    "  <domain>\n"@ + "    <"@ + "id"@ + ">"@ + xml_escaped(r.id@) + "</"@ + "id"@ + ">\n"@ + "    <"@
        + "hostname"@ + ">"@ + xml_escaped(r.hostname@) + "</"@ + "hostname"@ + ">\n"@ + "    <"@
        + "status"@ + ">"@ + xml_escaped(r.status@) + "</"@ + "status"@ + ">\n"@ + opt_xml_text(
        "owner_name"@,
        r.owner_name,
    ) + opt_xml_text("owner_email"@, r.owner_email) + opt_xml_bool(
        "vercel_verified"@,
        r.vercel_verified,
    ) + opt_xml_bool("vercel_misconfigured"@, r.vercel_misconfigured) + opt_xml_text(
        "last_checked_at"@,
        r.last_checked_at,
    ) + opt_xml_text("last_error"@, r.last_error) + visits_text(
        "    "@,
        "<visits>"@,
        "</visits>\n"@,
        r.visits,
    ) + "  </domain>\n"@
}

#[verifier::rlimit(40)]
fn push_domain_xml(out: &mut String, row: &DomainRow)
    ensures
        final(out)@ == old(out)@ + domain_xml(*row),
{
    push_str(out, "  <domain>\n");
    push_xml_element(out, "id", row.id.as_str());
    push_xml_element(out, "hostname", row.hostname.as_str());
    push_xml_element(out, "status", row.status.as_str());
    push_opt_xml_text(out, "owner_name", &row.owner_name);
    push_opt_xml_text(out, "owner_email", &row.owner_email);
    push_opt_xml_bool(out, "vercel_verified", row.vercel_verified);
    push_opt_xml_bool(out, "vercel_misconfigured", row.vercel_misconfigured);
    push_opt_xml_text(out, "last_checked_at", &row.last_checked_at);
    push_opt_xml_text(out, "last_error", &row.last_error);
    push_visits(out, "    ", "<visits>", "</visits>\n", row.visits);
    push_str(out, "  </domain>\n");
    assert(out@ =~= old(out)@ + domain_xml(*row));
}

/// Domain rows as an XML document.
pub fn domains_xml(rows: &[DomainRow]) -> (r: String)
    ensures
        r@ == "<domains>\n"@ + concat_domain_rows(rows@, |x: DomainRow| domain_xml(x))
            + "</domains>\n"@,
{
    let mut out = String::new();
    push_str(&mut out, "<domains>\n");
    let ghost head = out@;
    let mut i: usize = 0;
    while i < rows.len()
        invariant
            i <= rows@.len(),
            out@ == head + concat_domain_rows(rows@.take(i as int), |x: DomainRow| domain_xml(x)),
        decreases rows.len() - i,
    {
        let row = &rows[i];
        let ghost before = out@;
        push_domain_xml(&mut out, row);
        proof {
            assert(out@ =~= before + domain_xml(*row));
            assert(rows@.take(i + 1).drop_last() =~= rows@.take(i as int));
        }
        i = i + 1;
    }
    assert(rows@.take(rows@.len() as int) =~= rows@);
    push_str(&mut out, "</domains>\n");
    out
}

/// An optional YAML mapping entry `  key: "text"`.
pub open spec fn opt_yaml_text(key: Seq<char>, o: Option<String>) -> Seq<char> {
    match o {
        Some(v) => key + yaml_quoted(v@) + "\n"@,
        None => Seq::empty(),
    }
}

/// An optional YAML mapping entry `  key: true|false`.
pub open spec fn opt_yaml_bool(key: Seq<char>, o: Option<bool>) -> Seq<char> {
    match o {
        Some(b) => key + bool_text(b) + "\n"@,
        None => Seq::empty(),
    }
}

fn push_opt_yaml_text(out: &mut String, key: &str, o: &Option<String>)
    ensures
        final(out)@ == old(out)@ + opt_yaml_text(key@, *o),
{
    match o {
        Some(v) => {
            push_str(out, key);
            push_yaml_scalar(out, v.as_str());
            push_str(out, "\n");
        },
        None => assert(out@ =~= old(out)@ + opt_yaml_text(key@, *o)),
    }
}

fn push_opt_yaml_bool(out: &mut String, key: &str, o: Option<bool>)
    ensures
        final(out)@ == old(out)@ + opt_yaml_bool(key@, o),
{
    match o {
        Some(b) => {
            push_str(out, key);
            push_bool(out, b);
            push_str(out, "\n");
        },
        None => assert(out@ =~= old(out)@ + opt_yaml_bool(key@, o)),
    }
}

/// YAML for one domain row.
pub open spec fn domain_yaml(r: DomainRow) -> Seq<char> {
    "- id: "@ + yaml_quoted(r.id@) + "\n"@ + "  hostname: "@ + yaml_quoted(r.hostname@) + "\n"@
        + "  status: "@ + yaml_quoted(r.status@) + "\n"@ + opt_yaml_text(
        "  owner_name: "@,
        r.owner_name,
    ) + opt_yaml_text("  owner_email: "@, r.owner_email) + opt_yaml_bool(
        "  vercel_verified: "@,
        r.vercel_verified,
    ) + opt_yaml_bool("  vercel_misconfigured: "@, r.vercel_misconfigured) + opt_yaml_text(
        "  last_checked_at: "@,
        r.last_checked_at,
    ) + opt_yaml_text("  last_error: "@, r.last_error) + visits_text(
        ""@,
        "  visits: "@,
        "\n"@,
        r.visits,
    )
}

#[verifier::rlimit(40)]
fn push_domain_yaml(out: &mut String, row: &DomainRow)
    ensures
        final(out)@ == old(out)@ + domain_yaml(*row),
{
    push_str(out, "- id: ");
    push_yaml_scalar(out, row.id.as_str());
    push_str(out, "\n");
    push_str(out, "  hostname: ");
    push_yaml_scalar(out, row.hostname.as_str());
    push_str(out, "\n");
    push_str(out, "  status: ");
    push_yaml_scalar(out, row.status.as_str());
    push_str(out, "\n");
    push_opt_yaml_text(out, "  owner_name: ", &row.owner_name);
    push_opt_yaml_text(out, "  owner_email: ", &row.owner_email);
    push_opt_yaml_bool(out, "  vercel_verified: ", row.vercel_verified);
    push_opt_yaml_bool(out, "  vercel_misconfigured: ", row.vercel_misconfigured);
    push_opt_yaml_text(out, "  last_checked_at: ", &row.last_checked_at);
    push_opt_yaml_text(out, "  last_error: ", &row.last_error);
    push_visits(out, "", "  visits: ", "\n", row.visits);
    assert(out@ =~= old(out)@ + domain_yaml(*row));
}

/// Domain rows as a YAML sequence.
pub fn domains_yaml(rows: &[DomainRow]) -> (r: String)
    ensures
        r@ == concat_domain_rows(rows@, |x: DomainRow| domain_yaml(x)),
{
    let mut out = String::new();
    let mut i: usize = 0;
    while i < rows.len()
        invariant
            i <= rows@.len(),
            out@ == concat_domain_rows(rows@.take(i as int), |x: DomainRow| domain_yaml(x)),
        decreases rows.len() - i,
    {
        let row = &rows[i];
        let ghost before = out@;
        push_domain_yaml(&mut out, row);
        proof {
            assert(out@ =~= before + domain_yaml(*row));
            assert(rows@.take(i + 1).drop_last() =~= rows@.take(i as int));
        }
        i = i + 1;
    }
    assert(rows@.take(rows@.len() as int) =~= rows@);
    out
}

/// How list output is printed.
#[derive(Debug, Clone, Copy, PartialEq, Eq)]
pub enum OutputFormat {
    Text,
    Json,
    Xml,
    Yaml,
}

/// More than one of `--json`, `--xml`, `--yaml` was given.
#[derive(Debug, PartialEq, Eq)]
pub struct TooManyFormats;

/// The output format chosen by at most one of the structured-output flags.
pub fn output_format(json: bool, xml: bool, yaml: bool) -> (r: Result<OutputFormat, TooManyFormats>)
    ensures
        r is Err <==> (json as int) + (xml as int) + (yaml as int) > 1,
        r matches Ok(f) ==> f == (if json {
            OutputFormat::Json
        } else if xml {
            OutputFormat::Xml
        } else if yaml {
            OutputFormat::Yaml
        } else {
            OutputFormat::Text
        }),
{
    let requested: u8 = (if json { 1u8 } else { 0u8 }) + (if xml { 1u8 } else { 0u8 }) + (if yaml { 1u8 } else { 0u8 });
    if requested > 1 {
        return Err(TooManyFormats);
    }
    if json {
        Ok(OutputFormat::Json)
    } else if xml {
        Ok(OutputFormat::Xml)
    } else if yaml {
        Ok(OutputFormat::Yaml)
    } else {
        Ok(OutputFormat::Text)
    }
}


/// The text table of `suffix ls`: `SHORTCUT<TAB>TARGET`, then `<TAB>VISITS`
/// when the row has them.
pub open spec fn shortcut_table_of(rows: Seq<ShortcutRow>) -> Seq<char>
    decreases rows.len(),
{
    if rows.len() == 0 {
        Seq::empty()
    } else {
        let row = rows.last();
        shortcut_table_of(rows.drop_last()) + row.shortcut@ + "\t"@ + row.target@ + (match row.visits {
            Some(v) => "\t"@ + decimal(v as nat),
            None => Seq::empty(),
        }) + "\n"@
    }
}

pub fn shortcut_table(rows: &[ShortcutRow]) -> (r: String)
    ensures
        r@ == shortcut_table_of(rows@),
{
    let mut out = String::new();
    let mut i: usize = 0;
    while i < rows.len()
        invariant
            i <= rows@.len(),
            out@ == shortcut_table_of(rows@.take(i as int)),
        decreases rows.len() - i,
    {
        let row = &rows[i];
        let mut line = row.shortcut.clone();
        push_str(&mut line, "\t");
        push_str(&mut line, row.target.as_str());
        match row.visits {
            Some(v) => {
                let mut tail = to_tab();
                push_decimal(&mut tail, v);
                push_str(&mut line, tail.as_str());
            },
            None => assert(line@ =~= line@ + Seq::<char>::empty()),
        }
        push_str(&mut line, "\n");
        proof {
            assert(rows@.take(i + 1).drop_last() =~= rows@.take(i as int));
            assert(rows@.take(i + 1).last() == rows@[i as int]);
        }
        push_str(&mut out, line.as_str());
        i = i + 1;
    }
    assert(rows@.take(i as int) =~= rows@);
    out
}

fn to_tab() -> (r: String)
    ensures
        r@ == "\t"@,
{
    crate::text::to_owned_string("\t")
}

/// The text table of `suffix domain ls`: `HOSTNAME<TAB>STATUS`, then
/// `<TAB>VISITS` when the row has them.
pub open spec fn domain_table_of(rows: Seq<DomainRow>) -> Seq<char>
    decreases rows.len(),
{
    if rows.len() == 0 {
        Seq::empty()
    } else {
        let row = rows.last();
        domain_table_of(rows.drop_last()) + row.hostname@ + "\t"@ + row.status@ + (match row.visits {
            Some(v) => "\t"@ + decimal(v as nat),
            None => Seq::empty(),
        }) + "\n"@
    }
}

pub fn domain_table(rows: &[DomainRow]) -> (r: String)
    ensures
        r@ == domain_table_of(rows@),
{
    let mut out = String::new();
    let mut i: usize = 0;
    while i < rows.len()
        invariant
            i <= rows@.len(),
            out@ == domain_table_of(rows@.take(i as int)),
        decreases rows.len() - i,
    {
        let row = &rows[i];
        let mut line = row.hostname.clone();
        push_str(&mut line, "\t");
        push_str(&mut line, row.status.as_str());
        match row.visits {
            Some(v) => {
                let mut tail = to_tab();
                push_decimal(&mut tail, v);
                push_str(&mut line, tail.as_str());
            },
            None => assert(line@ =~= line@ + Seq::<char>::empty()),
        }
        push_str(&mut line, "\n");
        proof {
            assert(rows@.take(i + 1).drop_last() =~= rows@.take(i as int));
            assert(rows@.take(i + 1).last() == rows@[i as int]);
        }
        push_str(&mut out, line.as_str());
        i = i + 1;
    }
    assert(rows@.take(i as int) =~= rows@);
    out
}


} // verus!
