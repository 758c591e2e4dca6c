//! The HTML page that lists the registered tunnels.
use crate::registry::{TunnelInfo, TunnelInfoView};
use crate::text::string_push;
use vstd::prelude::*;
use vstd::string::StringExecFns;

verus! {

/// The page up to the table rows.
pub const PAGE_HEAD: &'static str = "<!DOCTYPE html>\n<html><head><title>Tunnel Dashboard</title>\n<meta name=\"viewport\" content=\"width=device-width,initial-scale=1\">\n<style>\nbody{font-family:system-ui,sans-serif;max-width:800px;margin:40px auto;padding:0 20px}\ntable{width:100%;border-collapse:collapse}\nth,td{padding:8px 12px;text-align:left;border-bottom:1px solid #ddd}\nth{background:#f5f5f5}\n.status-online{color:#090}\n</style></head><body>\n<h1>Tunnel Dashboard</h1>\n<table><tr><th>Subdomain</th><th>Local Port</th><th>Connected</th><th>Status</th></tr>\n";

/// The page after the table rows.
pub const PAGE_TAIL: &'static str = "</table>\n<p><a href=\\\"/_tunnel/health\\\">Health check</a></p></body></html>";

/// The character of a decimal digit.
pub open spec fn digit_char(d: nat) -> char {
    (d + 48) as char
}

/// The decimal notation of `n`, without leading zeros.
pub open spec fn decimal(n: nat) -> Seq<char>
    decreases n,
{
    if n < 10 {
        seq![digit_char(n)]
    } else {
        decimal(n / 10).push(digit_char(n % 10))
    }
}

/// Appends the decimal notation of `n`.
fn push_decimal(s: &mut String, n: u16)
    ensures
        final(s)@ == old(s)@ + decimal(n as nat),
    decreases n,
{
    if n >= 10 {
        push_decimal(s, n / 10);
    }
    let d: u8 = (n % 10) as u8;
    string_push(s, (d + 48) as char);
    assert(final(s)@ =~= old(s)@ + decimal(n as nat));
}

/// The table row of one tunnel.
pub open spec fn dashboard_row(t: TunnelInfoView) -> Seq<char> {
    "<tr><td>"@ + t.subdomain + "</td><td>"@ + decimal(t.local_port as nat) + "</td><td>"@
        + t.connected_at + "</td><td class=\"status-online\">online</td></tr>"@
}

/// The table rows of the tunnels, in order.
pub open spec fn dashboard_rows(ts: Seq<TunnelInfoView>) -> Seq<char>
    decreases ts.len(),
{
    if ts.len() == 0 {
        Seq::empty()
    } else {
        dashboard_rows(ts.drop_last()) + dashboard_row(ts.last())
    }
}

/// The dashboard listing `tunnels`.
pub fn dashboard_page(tunnels: &Vec<TunnelInfo>) -> (r: String)
    ensures
        r@ == PAGE_HEAD@ + dashboard_rows(tunnels@.map_values(|t: TunnelInfo| t@)) + PAGE_TAIL@,
{
    let ghost views = tunnels@.map_values(|t: TunnelInfo| t@);
    let mut r = PAGE_HEAD.to_owned();
    let mut i: usize = 0;
    while i < tunnels.len()
        invariant
            i <= tunnels@.len(),
            views == tunnels@.map_values(|t: TunnelInfo| t@),
            r@ == PAGE_HEAD@ + dashboard_rows(views.take(i as int)),
        decreases tunnels@.len() - i,
    {
        let t = &tunnels[i];
        r.append("<tr><td>");
        r.append(t.subdomain.as_str());
        r.append("</td><td>");
        push_decimal(&mut r, t.local_port);
        r.append("</td><td>");
        r.append(t.connected_at.as_str());
        r.append("</td><td class=\"status-online\">online</td></tr>");
        proof {
            assert(views.take(i + 1).drop_last() =~= views.take(i as int));
            assert(views.take(i + 1).last() == t@);
        }
        i = i + 1;
    }
    assert(views.take(tunnels@.len() as int) =~= views);
    r.append(PAGE_TAIL);
    r
}

} // verus!
