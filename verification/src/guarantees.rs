//! Properties of argument resolution, record reading, XML and YAML output, the
//! login callback and removal, stated over inputs and results.

use vstd::prelude::*;
use crate::shortcuts::{AddArgs, AddError, DomainChoice, add_fields_of, is_web_url, non_email, locator_parts, derived_tail};
use crate::records::{domain_row_of, shortcut_row_of, DomainVisits};
use crate::json::{JsonValue, text_field, bool_of, u64_of, field};
use crate::output::{DomainRow, domain_xml, xml_escaped, opt_xml_text, opt_xml_bool, visits_text, domain_yaml, yaml_quoted, opt_yaml_text, opt_yaml_bool, ShortcutRow, shortcut_xml, shortcut_yaml};
use crate::text::{bool_text, decimal};
use crate::api::{callback_from, remove_step_of, RemoveArgs};
use crate::trusted::percent_encoded;

verus! {

/// When no `-d`, no `--public` and no `HOST/TAIL URL` form applies, a TAIL that
/// was typed is the shortcut's tail, with or without `--domain-id`; the target
/// is VALUE; the tail is derived from VALUE only when none was typed.
pub proof fn law_typed_tail_is_kept(a: AddArgs)
    requires
        a.domain is None,
        !a.public,
        !non_email(a.target_url),
        !(a.tail matches Some(t) && !is_web_url(a.value@) && is_web_url(t@)),
    ensures
        add_fields_of(a) matches Ok((d, tail, target)) && target == a.value@ && (match a.tail {
            Some(t) => tail == t@,
            None => tail == derived_tail(a.value@),
        }) && (match a.domain_id {
            Some(id) => d == DomainChoice::Id(id@),
            None => d == DomainChoice::Default,
        }),
{
}

/// With `-d HOST` (and no `--domain-id`, no `--public`), HOST is the domain and
/// VALUE the tail; the target is a non-email third argument, else TAIL.
pub proof fn law_domain_flag_names_host_and_tail(a: AddArgs)
    requires
        a.domain is Some,
        a.domain_id is None,
        !a.public,
    ensures
        match add_fields_of(a) {
            Ok((d, tail, target)) => d == DomainChoice::Hostname((a.domain->0)@) && tail == a.value@
                && if non_email(a.target_url) {
                    target == (a.target_url->0)@
                } else {
                    a.tail is Some && target == (a.tail->0)@
                },
            Err(e) => e == AddError::DomainUsage && !non_email(a.target_url) && a.tail is None,
        },
{
}

/// In the `HOST/TAIL URL` form the host and tail come from VALUE and the
/// target is the URL.
pub proof fn law_locator_form_splits_value(a: AddArgs)
    requires
        a.domain is None,
        !a.public,
        !non_email(a.target_url),
        a.tail matches Some(t) && !is_web_url(a.value@) && is_web_url(t@),
    ensures
        match locator_parts(a.value@) {
            Some((h, t)) => add_fields_of(a) == Ok::<(DomainChoice, Seq<char>, Seq<char>), AddError>(
                (DomainChoice::Hostname(h), t, (a.tail->0)@),
            ),
            None => add_fields_of(a) == Err::<(DomainChoice, Seq<char>, Seq<char>), AddError>(AddError::Locator),
        },
{
}

/// With `--public` the domain is always `suf.cx`: a URL given as TAIL is the
/// target and VALUE the chosen tail; otherwise VALUE must be the URL and the
/// tail is left to be chosen.
pub proof fn law_public_form_uses_public_host(a: AddArgs)
    requires
        a.public,
        !(a.domain is Some && a.domain_id is Some),
    ensures
        match add_fields_of(a) {
            Ok((d, tail, target)) => d == DomainChoice::Hostname("suf.cx"@) && if a.tail matches Some(t) && is_web_url(t@) {
                tail == a.value@ && target == (a.tail->0)@
            } else {
                tail.len() == 0 && target == a.value@ && is_web_url(a.value@)
            },
            Err(e) => e == AddError::PublicUsage && !is_web_url(a.value@),
        },
{
}

/// A shortcut row is `hostname/tail` (just the hostname when the tail is
/// empty), the record's `targetUrl`, and with stats its `clickCount` (0 when
/// missing); a record without any of the three texts is refused.
pub proof fn law_shortcut_row_fields(s: JsonValue, stats: bool)
    ensures
        shortcut_row_of(s, stats) matches Ok((short, target, visits)) ==> {
            &&& text_field(s, "hostname"@) matches Some(h)
            &&& text_field(s, "tail"@) matches Some(t)
            &&& short == (if t.len() == 0 { h } else { h + "/"@ + t })
            &&& text_field(s, "targetUrl"@) == Some(target)
            &&& visits == (if stats {
                Some(match u64_of(field(s, "clickCount"@)) {
                    Some(n) => n,
                    None => 0,
                })
            } else {
                None
            })
        },
        shortcut_row_of(s, stats) is Err <==> (text_field(s, "hostname"@) is None || text_field(s, "tail"@) is None
            || text_field(s, "targetUrl"@) is None),
{
    reveal(shortcut_row_of);
}

/// Every field of a domain row is read from the record's own member of that
/// name: `ownerEmail` gives the owner email whatever `ownerName` holds, and so on.
pub proof fn law_domain_row_fields(d: JsonValue, visits: Option<DomainVisits>)
    ensures
        domain_row_of(d, visits) matches Ok(r) ==> {
            &&& text_field(d, "id"@) == Some(r.id)
            &&& text_field(d, "hostname"@) == Some(r.hostname)
            &&& r.status == (match text_field(d, "status"@) {
                Some(s) => s,
                None => "unknown"@,
            })
            &&& r.owner_name == text_field(d, "ownerName"@)
            &&& r.owner_email == text_field(d, "ownerEmail"@)
            &&& r.vercel_verified == bool_of(field(d, "vercelVerified"@))
            &&& r.vercel_misconfigured == bool_of(field(d, "vercelMisconfigured"@))
            &&& r.last_checked_at == text_field(d, "lastCheckedAt"@)
            &&& r.last_error == text_field(d, "lastError"@)
            &&& r.visits == (match visits {
                Some(v) => Some(v.count_of(r.id)),
                None => None,
            })
        },
        domain_row_of(d, visits) is Err <==> (text_field(d, "id"@) is None || text_field(d, "hostname"@) is None),
{
    reveal(domain_row_of);
}

/// One XML element `<tag>content</tag>` on its own indented line.
pub open spec fn xml_line(tag: Seq<char>, content: Seq<char>) -> Seq<char> {
    "    <"@ + tag + ">"@ + content + "</"@ + tag + ">\n"@
}

/// Whether `t` occurs in `s` as a contiguous part.
pub open spec fn occurs_in(t: Seq<char>, s: Seq<char>) -> bool {
    exists|i: int| 0 <= i && i + t.len() <= s.len() && #[trigger] s.subrange(i, i + t.len()) == t
}

proof fn lemma_occurs_left(e: Seq<char>, x: Seq<char>, y: Seq<char>)
    requires
        occurs_in(e, x),
    ensures
        occurs_in(e, x + y),
{
    let i = choose|i: int| 0 <= i && i + e.len() <= x.len() && #[trigger] x.subrange(i, i + e.len()) == e;
    assert((x + y).subrange(i, i + e.len()) =~= x.subrange(i, i + e.len()));
}

proof fn lemma_occurs_right(e: Seq<char>, x: Seq<char>, y: Seq<char>)
    requires
        occurs_in(e, y),
    ensures
        occurs_in(e, x + y),
{
    let i = choose|i: int| 0 <= i && i + e.len() <= y.len() && #[trigger] y.subrange(i, i + e.len()) == e;
    assert((x + y).subrange(x.len() + i, x.len() + i + e.len()) =~= y.subrange(i, i + e.len()));
}

proof fn lemma_occurs_self(e: Seq<char>)
    ensures
        occurs_in(e, e),
{
    let i: int = 0;
    assert(e.subrange(i, i + e.len()) =~= e);
}

/// The first lines of a domain's XML: the opening tag and the required elements.
pub open spec fn domain_head(r: DomainRow) -> Seq<char> {
    "  <domain>\n"@ + xml_line("id"@, xml_escaped(r.id@)) + xml_line("hostname"@, xml_escaped(r.hostname@))
        + xml_line("status"@, xml_escaped(r.status@))
}

proof fn lemma_domain_xml_shape(r: DomainRow)
    ensures
        domain_xml(r) == domain_head(r) + opt_xml_text("owner_name"@, r.owner_name) + opt_xml_text(
            "owner_email"@,
            r.owner_email,
        ) + opt_xml_bool("vercel_verified"@, r.vercel_verified) + opt_xml_bool(
            "vercel_misconfigured"@,
            r.vercel_misconfigured,
        ) + opt_xml_text("last_checked_at"@, r.last_checked_at) + opt_xml_text("last_error"@, r.last_error)
            + visits_text("    "@, "<visits>"@, "</visits>\n"@, r.visits) + "  </domain>\n"@,
{
    let literal = "  <domain>\n"@ + "    <"@ + "id"@ + ">"@ + xml_escaped(r.id@) + "</"@ + "id"@ + ">\n"@ + "    <"@
        + "hostname"@ + ">"@ + xml_escaped(r.hostname@) + "</"@ + "hostname"@ + ">\n"@ + "    <"@
        + "status"@ + ">"@ + xml_escaped(r.status@) + "</"@ + "status"@ + ">\n"@;
    assert(literal =~= domain_head(r));
}

/// Each field of a domain row appears in its XML as the element named after it,
/// holding that field's own value: `<vercel_verified>` holds `vercel_verified`,
/// `<owner_email>` the escaped `owner_email`, and so on.
pub proof fn law_domain_xml_elements(r: DomainRow)
    ensures
        occurs_in(xml_line("id"@, xml_escaped(r.id@)), domain_xml(r)),
        occurs_in(xml_line("hostname"@, xml_escaped(r.hostname@)), domain_xml(r)),
        occurs_in(xml_line("status"@, xml_escaped(r.status@)), domain_xml(r)),
        r.owner_name matches Some(v) ==> occurs_in(xml_line("owner_name"@, xml_escaped(v@)), domain_xml(r)),
        r.owner_email matches Some(v) ==> occurs_in(xml_line("owner_email"@, xml_escaped(v@)), domain_xml(r)),
        r.vercel_verified matches Some(b) ==> occurs_in(xml_line("vercel_verified"@, bool_text(b)), domain_xml(r)),
        r.vercel_misconfigured matches Some(b) ==> occurs_in(xml_line("vercel_misconfigured"@, bool_text(b)), domain_xml(r)),
        r.last_checked_at matches Some(v) ==> occurs_in(xml_line("last_checked_at"@, xml_escaped(v@)), domain_xml(r)),
        r.last_error matches Some(v) ==> occurs_in(xml_line("last_error"@, xml_escaped(v@)), domain_xml(r)),
        r.visits matches Some(n) ==> occurs_in("    "@ + "<visits>"@ + decimal(n as nat) + "</visits>\n"@, domain_xml(r)),
{
    lemma_domain_xml_shape(r);
    let h = domain_head(r);
    let on = opt_xml_text("owner_name"@, r.owner_name);
    let oe = opt_xml_text("owner_email"@, r.owner_email);
    let vv = opt_xml_bool("vercel_verified"@, r.vercel_verified);
    let vm = opt_xml_bool("vercel_misconfigured"@, r.vercel_misconfigured);
    let lc = opt_xml_text("last_checked_at"@, r.last_checked_at);
    let le = opt_xml_text("last_error"@, r.last_error);
    let vis = visits_text("    "@, "<visits>"@, "</visits>\n"@, r.visits);
    let close = "  </domain>\n"@;
    let s1 = h + on;
    let s2 = s1 + oe;
    let s3 = s2 + vv;
    let s4 = s3 + vm;
    let s5 = s4 + lc;
    let s6 = s5 + le;
    let s7 = s6 + vis;
    assert(domain_xml(r) == s7 + close);
    // The required elements, inside the head.
    let open = "  <domain>\n"@;
    let id = xml_line("id"@, xml_escaped(r.id@));
    let host = xml_line("hostname"@, xml_escaped(r.hostname@));
    let status = xml_line("status"@, xml_escaped(r.status@));
    lemma_occurs_self(id);
    lemma_occurs_right(id, open, id);
    lemma_occurs_left(id, open + id, host);
    lemma_occurs_left(id, open + id + host, status);
    lemma_occurs_self(host);
    lemma_occurs_right(host, open + id, host);
    lemma_occurs_left(host, open + id + host, status);
    lemma_occurs_self(status);
    lemma_occurs_right(status, open + id + host, status);
    lemma_occurs_from_head(r, id);
    lemma_occurs_from_head(r, host);
    lemma_occurs_from_head(r, status);
    if r.owner_name is Some {
        lemma_occurs_self(on);
        lemma_occurs_right(on, h, on);
        lemma_occurs_after(on, s1, oe, vv, vm, lc, le, vis, close);
    }
    if r.owner_email is Some {
        lemma_occurs_self(oe);
        lemma_occurs_right(oe, s1, oe);
        lemma_occurs_after(oe, s2, vv, vm, lc, le, vis, close, Seq::empty());
        assert(s7 + close + Seq::<char>::empty() =~= s7 + close);
    }
    if r.vercel_verified is Some {
        lemma_occurs_self(vv);
        lemma_occurs_right(vv, s2, vv);
        lemma_occurs_after(vv, s3, vm, lc, le, vis, close, Seq::empty(), Seq::empty());
        assert(s7 + close + Seq::<char>::empty() + Seq::<char>::empty() =~= s7 + close);
    }
    if r.vercel_misconfigured is Some {
        lemma_occurs_self(vm);
        lemma_occurs_right(vm, s3, vm);
        lemma_occurs_left(vm, s4, lc);
        lemma_occurs_left(vm, s5, le);
        lemma_occurs_left(vm, s6, vis);
        lemma_occurs_left(vm, s7, close);
    }
    if r.last_checked_at is Some {
        lemma_occurs_self(lc);
        lemma_occurs_right(lc, s4, lc);
        lemma_occurs_left(lc, s5, le);
        lemma_occurs_left(lc, s6, vis);
        lemma_occurs_left(lc, s7, close);
    }
    if r.last_error is Some {
        lemma_occurs_self(le);
        lemma_occurs_right(le, s5, le);
        lemma_occurs_left(le, s6, vis);
        lemma_occurs_left(le, s7, close);
    }
    if r.visits is Some {
        lemma_occurs_self(vis);
        lemma_occurs_right(vis, s6, vis);
        lemma_occurs_left(vis, s7, close);
    }
}

proof fn lemma_occurs_from_head(r: DomainRow, e: Seq<char>)
    requires
        occurs_in(e, domain_head(r)),
    ensures
        occurs_in(e, domain_xml(r)),
{
    lemma_domain_xml_shape(r);
    let h = domain_head(r);
    let x1 = h + opt_xml_text("owner_name"@, r.owner_name);
    lemma_occurs_left(e, h, opt_xml_text("owner_name"@, r.owner_name));
    lemma_occurs_after(
        e,
        x1,
        opt_xml_text("owner_email"@, r.owner_email),
        opt_xml_bool("vercel_verified"@, r.vercel_verified),
        opt_xml_bool("vercel_misconfigured"@, r.vercel_misconfigured),
        opt_xml_text("last_checked_at"@, r.last_checked_at),
        opt_xml_text("last_error"@, r.last_error),
        visits_text("    "@, "<visits>"@, "</visits>\n"@, r.visits),
        "  </domain>\n"@,
    );
}

proof fn lemma_occurs_after(
    e: Seq<char>,
    x: Seq<char>,
    a: Seq<char>,
    b: Seq<char>,
    c: Seq<char>,
    d: Seq<char>,
    f: Seq<char>,
    g: Seq<char>,
    h: Seq<char>,
)
    requires
        occurs_in(e, x),
    ensures
        occurs_in(e, x + a + b + c + d + f + g + h),
{
    lemma_occurs_left(e, x, a);
    lemma_occurs_left(e, x + a, b);
    lemma_occurs_left(e, x + a + b, c);
    lemma_occurs_left(e, x + a + b + c, d);
    lemma_occurs_left(e, x + a + b + c + d, f);
    lemma_occurs_left(e, x + a + b + c + d + f, g);
    lemma_occurs_left(e, x + a + b + c + d + f + g, h);
}

proof fn lemma_occurs_in_tail(e: Seq<char>, x: Seq<char>, a: Seq<char>, b: Seq<char>, c: Seq<char>, d: Seq<char>, f: Seq<char>)
    requires
        occurs_in(e, x),
    ensures
        occurs_in(e, x + a + b + c + d + f),
{
    lemma_occurs_left(e, x, a);
    lemma_occurs_left(e, x + a, b);
    lemma_occurs_left(e, x + a + b, c);
    lemma_occurs_left(e, x + a + b + c, d);
    lemma_occurs_left(e, x + a + b + c + d, f);
}

/// Each field of a domain row appears in its YAML entry under its own key,
/// holding that field's own value.
pub proof fn law_domain_yaml_entries(r: DomainRow)
    ensures
        occurs_in("- id: "@ + yaml_quoted(r.id@) + "\n"@, domain_yaml(r)),
        occurs_in("  hostname: "@ + yaml_quoted(r.hostname@) + "\n"@, domain_yaml(r)),
        occurs_in("  status: "@ + yaml_quoted(r.status@) + "\n"@, domain_yaml(r)),
        r.owner_name matches Some(v) ==> occurs_in("  owner_name: "@ + yaml_quoted(v@) + "\n"@, domain_yaml(r)),
        r.owner_email matches Some(v) ==> occurs_in("  owner_email: "@ + yaml_quoted(v@) + "\n"@, domain_yaml(r)),
        r.vercel_verified matches Some(b) ==> occurs_in("  vercel_verified: "@ + bool_text(b) + "\n"@, domain_yaml(r)),
        r.vercel_misconfigured matches Some(b) ==> occurs_in("  vercel_misconfigured: "@ + bool_text(b) + "\n"@, domain_yaml(r)),
        r.last_checked_at matches Some(v) ==> occurs_in("  last_checked_at: "@ + yaml_quoted(v@) + "\n"@, domain_yaml(r)),
        r.last_error matches Some(v) ==> occurs_in("  last_error: "@ + yaml_quoted(v@) + "\n"@, domain_yaml(r)),
        r.visits matches Some(n) ==> occurs_in(""@ + "  visits: "@ + decimal(n as nat) + "\n"@, domain_yaml(r)),
{
    let idl = "- id: "@ + yaml_quoted(r.id@) + "\n"@;
    let hl = "  hostname: "@ + yaml_quoted(r.hostname@) + "\n"@;
    let sl = "  status: "@ + yaml_quoted(r.status@) + "\n"@;
    let h = "- id: "@ + yaml_quoted(r.id@) + "\n"@ + "  hostname: "@ + yaml_quoted(r.hostname@) + "\n"@
        + "  status: "@ + yaml_quoted(r.status@) + "\n"@;
    assert(h =~= idl + hl + sl);
    let on = opt_yaml_text("  owner_name: "@, r.owner_name);
    let oe = opt_yaml_text("  owner_email: "@, r.owner_email);
    let vv = opt_yaml_bool("  vercel_verified: "@, r.vercel_verified);
    let vm = opt_yaml_bool("  vercel_misconfigured: "@, r.vercel_misconfigured);
    let lc = opt_yaml_text("  last_checked_at: "@, r.last_checked_at);
    let le = opt_yaml_text("  last_error: "@, r.last_error);
    let vis = visits_text(""@, "  visits: "@, "\n"@, r.visits);
    assert(domain_yaml(r) == h + on + oe + vv + vm + lc + le + vis);
    lemma_occurs_self(idl);
    lemma_occurs_left(idl, idl, hl);
    lemma_occurs_left(idl, idl + hl, sl);
    lemma_occurs_self(hl);
    lemma_occurs_right(hl, idl, hl);
    lemma_occurs_left(hl, idl + hl, sl);
    lemma_occurs_self(sl);
    lemma_occurs_right(sl, idl + hl, sl);
    lemma_occurs_left(idl, h, on);
    lemma_occurs_left(hl, h, on);
    lemma_occurs_left(sl, h, on);
    lemma_occurs_in_tail(idl, h + on, oe, vv, vm, lc, le);
    lemma_occurs_in_tail(hl, h + on, oe, vv, vm, lc, le);
    lemma_occurs_in_tail(sl, h + on, oe, vv, vm, lc, le);
    lemma_occurs_left(idl, h + on + oe + vv + vm + lc + le, vis);
    lemma_occurs_left(hl, h + on + oe + vv + vm + lc + le, vis);
    lemma_occurs_left(sl, h + on + oe + vv + vm + lc + le, vis);
    if r.owner_name is Some {
        lemma_occurs_self(on);
        lemma_occurs_right(on, h, on);
        lemma_occurs_in_tail(on, h + on, oe, vv, vm, lc, le);
        lemma_occurs_left(on, h + on + oe + vv + vm + lc + le, vis);
    }
    if r.owner_email is Some {
        lemma_occurs_self(oe);
        lemma_occurs_right(oe, h + on, oe);
        lemma_occurs_left(oe, h + on + oe, vv);
        lemma_occurs_left(oe, h + on + oe + vv, vm);
        lemma_occurs_left(oe, h + on + oe + vv + vm, lc);
        lemma_occurs_left(oe, h + on + oe + vv + vm + lc, le);
        lemma_occurs_left(oe, h + on + oe + vv + vm + lc + le, vis);
    }
    if r.vercel_verified is Some {
        lemma_occurs_self(vv);
        lemma_occurs_right(vv, h + on + oe, vv);
        lemma_occurs_left(vv, h + on + oe + vv, vm);
        lemma_occurs_left(vv, h + on + oe + vv + vm, lc);
        lemma_occurs_left(vv, h + on + oe + vv + vm + lc, le);
        lemma_occurs_left(vv, h + on + oe + vv + vm + lc + le, vis);
    }
    if r.vercel_misconfigured is Some {
        lemma_occurs_self(vm);
        lemma_occurs_right(vm, h + on + oe + vv, vm);
        lemma_occurs_left(vm, h + on + oe + vv + vm, lc);
        lemma_occurs_left(vm, h + on + oe + vv + vm + lc, le);
        lemma_occurs_left(vm, h + on + oe + vv + vm + lc + le, vis);
    }
    if r.last_checked_at is Some {
        lemma_occurs_self(lc);
        lemma_occurs_right(lc, h + on + oe + vv + vm, lc);
        lemma_occurs_left(lc, h + on + oe + vv + vm + lc, le);
        lemma_occurs_left(lc, h + on + oe + vv + vm + lc + le, vis);
    }
    if r.last_error is Some {
        lemma_occurs_self(le);
        lemma_occurs_right(le, h + on + oe + vv + vm + lc, le);
        lemma_occurs_left(le, h + on + oe + vv + vm + lc + le, vis);
    }
    if r.visits is Some {
        lemma_occurs_self(vis);
        lemma_occurs_right(vis, h + on + oe + vv + vm + lc + le, vis);
    }
}

/// A shortcut row's XML and YAML hold its own short link, target and visits,
/// each under its own element or key.
pub proof fn law_shortcut_row_outputs(r: ShortcutRow)
    ensures
        occurs_in("    <short>"@ + xml_escaped(r.shortcut@) + "</short>\n"@, shortcut_xml(r)),
        occurs_in("    <target>"@ + xml_escaped(r.target@) + "</target>\n"@, shortcut_xml(r)),
        r.visits matches Some(n) ==> occurs_in("    "@ + "<visits>"@ + decimal(n as nat) + "</visits>\n"@, shortcut_xml(r)),
        occurs_in("- shortcut: "@ + yaml_quoted(r.shortcut@) + "\n"@, shortcut_yaml(r)),
        occurs_in("  target: "@ + yaml_quoted(r.target@) + "\n"@, shortcut_yaml(r)),
        r.visits matches Some(n) ==> occurs_in(""@ + "  visits: "@ + decimal(n as nat) + "\n"@, shortcut_yaml(r)),
{
    let open = "  <shortcut>\n"@;
    let sl = "    <short>"@ + xml_escaped(r.shortcut@) + "</short>\n"@;
    let tl = "    <target>"@ + xml_escaped(r.target@) + "</target>\n"@;
    let vis = visits_text("    "@, "<visits>"@, "</visits>\n"@, r.visits);
    let close = "  </shortcut>\n"@;
    assert(shortcut_xml(r) =~= open + sl + tl + vis + close);
    lemma_occurs_self(sl);
    lemma_occurs_right(sl, open, sl);
    lemma_occurs_left(sl, open + sl, tl);
    lemma_occurs_left(sl, open + sl + tl, vis);
    lemma_occurs_left(sl, open + sl + tl + vis, close);
    lemma_occurs_self(tl);
    lemma_occurs_right(tl, open + sl, tl);
    lemma_occurs_left(tl, open + sl + tl, vis);
    lemma_occurs_left(tl, open + sl + tl + vis, close);
    if r.visits is Some {
        lemma_occurs_self(vis);
        lemma_occurs_right(vis, open + sl + tl, vis);
        lemma_occurs_left(vis, open + sl + tl + vis, close);
    }
    let ys = "- shortcut: "@ + yaml_quoted(r.shortcut@) + "\n"@;
    let yt = "  target: "@ + yaml_quoted(r.target@) + "\n"@;
    let yv = visits_text(""@, "  visits: "@, "\n"@, r.visits);
    assert(shortcut_yaml(r) =~= ys + yt + yv);
    lemma_occurs_self(ys);
    lemma_occurs_left(ys, ys, yt);
    lemma_occurs_left(ys, ys + yt, yv);
    lemma_occurs_self(yt);
    lemma_occurs_right(yt, ys, yt);
    lemma_occurs_left(yt, ys + yt, yv);
    if r.visits is Some {
        lemma_occurs_self(yv);
        lemma_occurs_right(yv, ys + yt, yv);
    }
}

/// The field a login callback holds for the query name `k`.
spec fn reads(c: crate::api::CallbackView, k: Seq<char>) -> Option<Seq<char>> {
    if k == "state"@ {
        Some(c.state)
    } else if k == "key"@ {
        c.key
    } else if k == "api_base"@ {
        c.api_base
    } else {
        c.error
    }
}

proof fn lemma_last_pair(pairs: Seq<(Seq<char>, Seq<char>)>, k: Seq<char>)
    requires
        k == "state"@ || k == "key"@ || k == "api_base"@ || k == "error"@,
    ensures
        forall|i: int| 0 <= i < pairs.len() && (#[trigger] pairs[i]).0 == k
            && (forall|j: int| i < j < pairs.len() ==> pairs[j].0 != k)
            ==> reads(callback_from(pairs), k) == Some(pairs[i].1),
        (forall|i: int| 0 <= i < pairs.len() ==> (#[trigger] pairs[i]).0 != k)
            ==> reads(callback_from(pairs), k) == reads(callback_from(Seq::empty()), k),
    decreases pairs.len(),
{
    reveal_strlit("error");
    reveal_strlit("key");
    reveal_strlit("api_base");
    reveal_strlit("state");
    assert("error"@.len() != "key"@.len());
    assert("error"@.len() != "api_base"@.len());
    assert("error"@[0] != "state"@[0]);
    assert("key"@.len() != "api_base"@.len());
    assert("key"@.len() != "state"@.len());
    assert("api_base"@.len() != "state"@.len());
    if pairs.len() > 0 {
        let rest = pairs.drop_last();
        let n = pairs.len() - 1;
        let last = pairs[n];
        lemma_last_pair(rest, k);
        assert(callback_from(pairs) == crate::api::apply_pair(callback_from(rest), pairs.last()));
        if last.0 == k {
            assert forall|i: int| 0 <= i < pairs.len() && (#[trigger] pairs[i]).0 == k
                && (forall|j: int| i < j < pairs.len() ==> pairs[j].0 != k)
                implies reads(callback_from(pairs), k) == Some(pairs[i].1) by {
                if i < n {
                    assert(pairs[n].0 != k);
                }
            }
        } else {
            assert(reads(callback_from(pairs), k) == reads(callback_from(rest), k));
            assert forall|i: int| 0 <= i < pairs.len() && (#[trigger] pairs[i]).0 == k
                && (forall|j: int| i < j < pairs.len() ==> pairs[j].0 != k)
                implies reads(callback_from(pairs), k) == Some(pairs[i].1) by {
                assert(i < n);
                assert(rest[i] == pairs[i]);
                assert forall|j: int| i < j < rest.len() implies rest[j].0 != k by {
                    assert(rest[j] == pairs[j]);
                }
            }
            if forall|i: int| 0 <= i < pairs.len() ==> (#[trigger] pairs[i]).0 != k {
                assert forall|i: int| 0 <= i < rest.len() implies (#[trigger] rest[i]).0 != k by {
                    assert(rest[i] == pairs[i]);
                }
            }
        }
    }
}

/// The login callback takes each of `state`, `key`, `api_base` and `error` from
/// the last query pair with that name; `error`, `key` and `api_base` are absent
/// only when no pair has that name, and `state` is then empty.
pub proof fn law_callback_reads_last_pairs(pairs: Seq<(Seq<char>, Seq<char>)>)
    ensures
        forall|i: int| 0 <= i < pairs.len() && (#[trigger] pairs[i]).0 == "error"@
            && (forall|j: int| i < j < pairs.len() ==> pairs[j].0 != "error"@)
            ==> callback_from(pairs).error == Some(pairs[i].1),
        (forall|i: int| 0 <= i < pairs.len() ==> (#[trigger] pairs[i]).0 != "error"@) ==> callback_from(pairs).error is None,
        forall|i: int| 0 <= i < pairs.len() && (#[trigger] pairs[i]).0 == "key"@
            && (forall|j: int| i < j < pairs.len() ==> pairs[j].0 != "key"@)
            ==> callback_from(pairs).key == Some(pairs[i].1),
        (forall|i: int| 0 <= i < pairs.len() ==> (#[trigger] pairs[i]).0 != "key"@) ==> callback_from(pairs).key is None,
        forall|i: int| 0 <= i < pairs.len() && (#[trigger] pairs[i]).0 == "api_base"@
            && (forall|j: int| i < j < pairs.len() ==> pairs[j].0 != "api_base"@)
            ==> callback_from(pairs).api_base == Some(pairs[i].1),
        (forall|i: int| 0 <= i < pairs.len() ==> (#[trigger] pairs[i]).0 != "api_base"@) ==> callback_from(pairs).api_base is None,
        forall|i: int| 0 <= i < pairs.len() && (#[trigger] pairs[i]).0 == "state"@
            && (forall|j: int| i < j < pairs.len() ==> pairs[j].0 != "state"@)
            ==> callback_from(pairs).state == pairs[i].1,
        (forall|i: int| 0 <= i < pairs.len() ==> (#[trigger] pairs[i]).0 != "state"@) ==> callback_from(pairs).state.len() == 0,
{
    reveal_strlit("error");
    reveal_strlit("key");
    reveal_strlit("api_base");
    reveal_strlit("state");
    assert("error"@.len() != "key"@.len());
    assert("error"@.len() != "api_base"@.len());
    assert("error"@[0] != "state"@[0]);
    assert("key"@.len() != "api_base"@.len());
    assert("key"@.len() != "state"@.len());
    assert("api_base"@.len() != "state"@.len());
    lemma_last_pair(pairs, "error"@);
    lemma_last_pair(pairs, "key"@);
    lemma_last_pair(pairs, "api_base"@);
    lemma_last_pair(pairs, "state"@);
}

/// Removing with `--domain` always deletes the domain with that ID, whatever
/// version was given or looked up; without it, a given version wins over a
/// looked-up one, and with neither the version must be looked up first.
pub proof fn law_remove_targets(args: RemoveArgs, looked_up: Option<u64>)
    ensures
        args.domain ==> remove_step_of(args, looked_up)
            == Some("domains?id="@ + percent_encoded(vstd::utf8::encode_utf8(args.id@))),
        !args.domain ==> (args.version matches Some(v) ==> remove_step_of(args, looked_up) == Some(
            "shortcuts?id="@ + percent_encoded(vstd::utf8::encode_utf8(args.id@)) + "&version="@ + decimal(v as nat),
        )),
        !args.domain && args.version is None ==> match looked_up {
            Some(v) => remove_step_of(args, looked_up) == Some(
                "shortcuts?id="@ + percent_encoded(vstd::utf8::encode_utf8(args.id@)) + "&version="@ + decimal(v as nat),
            ),
            None => remove_step_of(args, looked_up) is None,
        },
{
}

} // verus!
