use crate::outside::{json_string_field, json_text_field};
use crate::text::{chars_eq_str, chars_of, lemma_trim_unique, string_of, trim};
use crate::web::command::{command_argument, command_word, split_first_space, trimmed};
use crate::web::engine::{comma_list_block, lines_block, Eng};
use crate::text::split_spec;
use vstd::prelude::*;

verus! {

/// The JSON crawler's panel page.
pub const PANEL_HTML: &'static str = r#"
    <!DOCTYPE html>
    <html>
      <head>
        <title>Spider program</title>
      </head>
      <body>
        <h1>Panel to monitor and manage the program</h1>
        <p>The engines available - campaigns.</p>
        <h2>CRUD Campaign options</h2>
    
        <div>
          <h3>List campaigns</h3>
          <ul id="campaign-list"></ul>
        </div>
    
        <div>
          <h3>Create Campaigns</h3>
          <form>
            <label>Campaign name</label>
            <input placeholder="Name" />
            <button type="submit">Submit</button>
          </form>
        </div>
    
        <div>
          <h3>Run all Campaigns</h3>
          <form>
            <button type="submit">Submit</button>
          </form>
        </div>
    
        <div>
          <h3>Stats</h3>
          <div id="feed-stats"></div>
        </div>
    
        <script>
          const socket = new WebSocket("ws://127.0.0.1:8080");
    
          socket.addEventListener("open", (event) => {
            // start a new stats feed
            socket.send("feed");
          });
    
          const stats = document.getElementById("feed-stats");

          socket.addEventListener("message", (event) => {
            console.log("inc: ", event.data);
            stats.innerHTML = event.data;
          });
        </script>
      </body>
    </html>    
    "#;

/// The JSON crawler's panel page, served as it is.
pub fn raw_html() -> (html: &'static str)
    ensures
        html@ == PANEL_HTML@,
{
    PANEL_HTML
}

/// What a socket message of the JSON crawler's panel asks for.
pub enum PanelCommand {
    /// Start the stats feed.
    Feed,
    /// Create a campaign from the JSON description given.
    CreateCampaign(String),
    /// Run the named campaign.
    RunCampaign(String),
    /// List the campaigns.
    ListCampaigns,
    /// Run every campaign.
    RunAllCampaigns,
    /// Count the hits of every campaign.
    ListCampaignStats,
    /// List the engines.
    ListEngines,
    /// Create an engine from the JSON description given.
    CreateEngine(String),
}

/// What a socket message of the JSON crawler's panel asks for: the command
/// word of its trimmed text names it, the rest is its argument.
pub open spec fn panel_command_spec(txt: Seq<char>) -> Option<(int, Seq<char>)> {
    let ms = trimmed(txt);
    let c = command_word(ms);
    let cc = command_argument(ms);
    if c == "feed"@ {
        Some((0, Seq::empty()))
    } else if c == "create-campaign"@ {
        Some((1, cc))
    } else if c == "run-campaign"@ {
        Some((2, cc))
    } else if c == "list-campaigns"@ {
        Some((3, Seq::empty()))
    } else if ms == "run-all-campaigns"@ {
        Some((4, Seq::empty()))
    } else if c == "list-campaign-stats"@ {
        Some((5, Seq::empty()))
    } else if c == "list-engines"@ {
        Some((6, Seq::empty()))
    } else if c == "create-engine"@ {
        Some((7, cc))
    } else {
        None
    }
}

/// The code and argument of a panel command, as `panel_command_spec`
/// numbers them.
pub open spec fn command_code(c: PanelCommand) -> (int, Seq<char>) {
    match c {
        PanelCommand::Feed => (0, Seq::empty()),
        PanelCommand::CreateCampaign(a) => (1, a@),
        PanelCommand::RunCampaign(a) => (2, a@),
        PanelCommand::ListCampaigns => (3, Seq::empty()),
        PanelCommand::RunAllCampaigns => (4, Seq::empty()),
        PanelCommand::ListCampaignStats => (5, Seq::empty()),
        PanelCommand::ListEngines => (6, Seq::empty()),
        PanelCommand::CreateEngine(a) => (7, a@),
    }
}

/// Reads a socket message of the JSON crawler's panel.
pub fn parse_panel_command(txt: &str) -> (r: Option<PanelCommand>)
    ensures
        match panel_command_spec(txt@) {
            None => r is None,
            Some(p) => r matches Some(c) && command_code(c) == p,
        },
{
    let raw = chars_of(txt);
    let ms = trim(raw.as_slice());
    proof {
        lemma_trim_unique(txt@, ms@, trimmed(txt@));
    }
    let (c, cc) = split_first_space(ms.as_slice());
    let w = c.as_slice();
    if chars_eq_str(w, "feed") {
        Some(PanelCommand::Feed)
    } else if chars_eq_str(w, "create-campaign") {
        Some(PanelCommand::CreateCampaign(string_of(cc.as_slice())))
    } else if chars_eq_str(w, "run-campaign") {
        Some(PanelCommand::RunCampaign(string_of(cc.as_slice())))
    } else if chars_eq_str(w, "list-campaigns") {
        Some(PanelCommand::ListCampaigns)
    } else if chars_eq_str(ms.as_slice(), "run-all-campaigns") {
        Some(PanelCommand::RunAllCampaigns)
    } else if chars_eq_str(w, "list-campaign-stats") {
        Some(PanelCommand::ListCampaignStats)
    } else if chars_eq_str(w, "list-engines") {
        Some(PanelCommand::ListEngines)
    } else if chars_eq_str(w, "create-engine") {
        Some(PanelCommand::CreateEngine(string_of(cc.as_slice())))
    } else {
        None
    }
}

/// The folders and the config file that creating a campaign makes.
pub struct CampaignCreation {
    pub dir: String,
    pub valid_dir: String,
    pub config_file: String,
    pub config_text: String,
}

/// What creating a campaign from its JSON description makes: its folder
/// under `_db/campaigns/`, its `valid` folder, and a `config.txt` naming its
/// engine (`default` when none is given); `None` when the description has
/// no string `name` (where the panel's worker fails).
pub fn campaign_creation(description: &str) -> (made: Option<CampaignCreation>)
    ensures
        json_string_field(description@, "name"@) is None ==> made is None,
        made matches Some(c) ==> json_string_field(description@, "name"@) matches Some(name) && {
            &&& c.dir@ == "_db/campaigns/"@ + name
            &&& c.valid_dir@ == "_db/campaigns/"@ + name + "/valid"@
            &&& c.config_file@ == "_db/campaigns/"@ + name + "/config.txt"@
            &&& c.config_text@ == "engine "@ + match json_string_field(description@, "engine"@) {
                Some(e) => e,
                None => "default"@,
            }
        },
        json_string_field(description@, "name"@) is Some ==> made is Some,
{
    let name = match json_text_field(description, "name") {
        Some(n) => n,
        None => {
            return None;
        },
    };
    let mut dir = String::from_str("_db/campaigns/");
    dir.append(name.as_str());
    let mut valid_dir = dir.clone();
    valid_dir.append("/valid");
    let mut config_file = dir.clone();
    config_file.append("/config.txt");
    let mut config_text = String::from_str("engine ");
    match json_text_field(description, "engine") {
        Some(e) => config_text.append(e.as_str()),
        None => config_text.append("default"),
    }
    Some(CampaignCreation { dir, valid_dir, config_file, config_text })
}

/// The engine folder and files that the JSON crawler's panel makes for
/// `eng`: nothing for an engine without a name; otherwise `_engines_/` and
/// its name, with its paths and patterns listed one per line.
pub fn engine_files(eng: &Eng) -> (made: Option<(String, String, String, String, String)>)
    ensures
        eng.name@.len() == 0 <==> made is None,
        made matches Some(m) ==> {
            &&& m.0@ == "_engines_/"@ + eng.name@
            &&& m.1@ == "_engines_/"@ + eng.name@ + "/paths.txt"@
            &&& m.2@ == lines_block(split_spec(eng.paths@, ','))
            &&& m.3@ == "_engines_/"@ + eng.name@ + "/patterns.txt"@
            &&& m.4@ == lines_block(split_spec(eng.patterns@, ','))
        },
{
    if eng.name.as_str().is_empty() {
        return None;
    }
    let mut dir = String::from_str("_engines_/");
    dir.append(eng.name.as_str());
    let mut paths_file = dir.clone();
    paths_file.append("/paths.txt");
    let mut patterns_file = dir.clone();
    patterns_file.append("/patterns.txt");
    Some(
        (
            dir,
            paths_file,
            comma_list_block(eng.paths.as_str()),
            patterns_file,
            comma_list_block(eng.patterns.as_str()),
        ),
    )
}

} // verus!
