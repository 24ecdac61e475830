use vstd::prelude::*;

verus! {

/// The script that opens the panel's socket when no address is configured.
pub open spec fn default_socket_script() -> Seq<char> {
    "\n<script>\n\n  const socket = new WebSocket(\"ws://127.0.0.1:8080\");\n"@
}

/// The script that the panel page starts with: one that opens a socket to
/// the configured address (`WS_CONNECTION`), or the default one.
pub fn raw_html(ws_connection: Option<&str>) -> (script: String)
    ensures
        match ws_connection {
            Some(v) => script@ == "<script>const sock = new WebSocket(\""@ + v@
                + "\");</script>"@,
            None => script@ == default_socket_script(),
        },
{
    match ws_connection {
        Some(v) => {
            let mut s = String::from_str("<script>const sock = new WebSocket(\"");
            s.append(v);
            s.append("\");</script>");
            s
        },
        None => String::from_str("\n<script>\n\n  const socket = new WebSocket(\"ws://127.0.0.1:8080\");\n"),
    }
}

} // verus!
