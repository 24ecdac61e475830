use super::command::Action;
use vstd::prelude::*;

verus! {

/// The refresh schedule of a looping panel connection.
pub struct TickState {
    pub list_ticket: i32,
    pub list_config: i32,
}

/// What one refresh tick sends besides the stats.
#[derive(PartialEq, Eq, Structural, Clone, Copy, Debug)]
pub struct TickPlan {
    /// Send the config.
    pub send_config: bool,
    /// Send the campaign, engine, count and file listings.
    pub send_lists: bool,
}

/// One refresh tick: the config goes out while its counter is zero, which
/// only a ticket of 20 would reset; the listings go out while the ticket is
/// zero, the ticket running round twelve ticks.
pub open spec fn tick_spec(ticket: int, config: int) -> (bool, bool, int, int) {
    let send_config = config == 0;
    let config2 = if config == 0 {
        config + 1
    } else if ticket == 20 {
        0
    } else {
        config + 1
    };
    let send_lists = ticket == 0;
    let ticket2 = if ticket == 0 {
        ticket + 1
    } else if ticket + 1 == 12 {
        0
    } else {
        ticket + 1
    };
    (send_config, send_lists, ticket2, config2)
}

impl TickState {
    /// The schedule at the start of a loop.
    pub fn new() -> (t: Self)
        ensures
            t.list_ticket == 0,
            t.list_config == 0,
    {
        TickState { list_ticket: 0, list_config: 0 }
    }

    /// Advances the schedule by one tick and says what the tick sends.
    pub fn tick(&mut self) -> (plan: TickPlan)
        requires
            old(self).list_config < i32::MAX,
            old(self).list_ticket < i32::MAX,
        ensures
            (plan.send_config, plan.send_lists, final(self).list_ticket as int, final(self).list_config as int) == tick_spec(
                old(self).list_ticket as int,
                old(self).list_config as int,
            ),
    {
        let send_config = self.list_config == 0;
        if self.list_config == 0 {
            self.list_config = self.list_config + 1;
        } else {
            self.list_config = self.list_config + 1;
            if self.list_ticket == 20 {
                self.list_config = 0;
            }
        }
        let send_lists = self.list_ticket == 0;
        if self.list_ticket == 0 {
            self.list_ticket = self.list_ticket + 1;
        } else {
            self.list_ticket = self.list_ticket + 1;
            if self.list_ticket == 12 {
                self.list_ticket = 0;
            }
        }
        TickPlan { send_config, send_lists }
    }
}

/// The schedule after `n` ticks from the start of a loop.
pub open spec fn ticks(n: nat) -> (int, int)
    decreases n,
{
    if n == 0 {
        (0, 0)
    } else {
        let (t, c) = ticks((n - 1) as nat);
        let r = tick_spec(t, c);
        (r.2, r.3)
    }
}

/// From the start of a loop, the listings go out on every twelfth tick and
/// the config on the first tick only: after `n` ticks the ticket is
/// `n mod 12` and the config counter is `n`, never reset.
pub proof fn law_tick_schedule(n: nat)
    ensures
        ticks(n) == ((n % 12) as int, n as int),
        tick_spec(ticks(n).0, ticks(n).1).0 <==> n == 0,
        tick_spec(ticks(n).0, ticks(n).1).1 <==> n % 12 == 0,
    decreases n,
{
    if n > 0 {
        law_tick_schedule((n - 1) as nat);
    }
}

/// What the connection's worker does for one requested action.
pub enum Task {
    SendStats,
    ListValid,
    ListEngines,
    ListFileCount,
    ListFiles,
    RemoveFile(String),
    RunAll,
    Run(String),
    RemoveEngine(String),
    SendConfig,
    /// Store the key in `config.txt` and validate the stored license again.
    SetLicense(String),
    /// Store a config key and its value.
    WriteConfig(String, String),
    Nothing,
}

/// What the worker does for `action` with argument `input`: running
/// campaigns needs a valid license; `set-list` stores the list's path in the
/// files folder as target.
pub fn plan_action(action: Action, input: &str, licensed: bool, files_dir: &str) -> (task: Task)
    ensures
        match action {
            Action::Stats => task is SendStats,
            Action::ListValidCampaigns => task is ListValid,
            Action::ListEngines => task is ListEngines,
            Action::ListFileCount => task is ListFileCount,
            Action::ListFiles => task is ListFiles,
            Action::RemoveFile => task matches Task::RemoveFile(f) && f@ == input@,
            Action::RunAllCampaigns => if licensed {
                task is RunAll
            } else {
                task is Nothing
            },
            Action::RunCampaign => if licensed {
                task matches Task::Run(c) && c@ == input@
            } else {
                task is Nothing
            },
            Action::RemoveEngine => task matches Task::RemoveEngine(e) && e@ == input@,
            Action::Config => task is SendConfig,
            Action::SetLicense => task matches Task::SetLicense(k) && k@ == input@,
            Action::SetProxy => task matches Task::WriteConfig(k, v) && k@ == "proxy"@ && v@
                == input@,
            Action::SetBuffer => task matches Task::WriteConfig(k, v) && k@ == "buffer"@ && v@
                == input@,
            Action::SetList => task matches Task::WriteConfig(k, v) && k@ == "target"@ && v@
                == files_dir@ + input@,
            Action::CreateEngine => task is Nothing,
            Action::Loop => task is Nothing,
        },
{
    match action {
        Action::Stats => Task::SendStats,
        Action::ListValidCampaigns => Task::ListValid,
        Action::ListEngines => Task::ListEngines,
        Action::ListFileCount => Task::ListFileCount,
        Action::ListFiles => Task::ListFiles,
        Action::RemoveFile => Task::RemoveFile(String::from_str(input)),
        Action::RunAllCampaigns => if licensed {
            Task::RunAll
        } else {
            Task::Nothing
        },
        Action::RunCampaign => if licensed {
            Task::Run(String::from_str(input))
        } else {
            Task::Nothing
        },
        Action::RemoveEngine => Task::RemoveEngine(String::from_str(input)),
        Action::Config => Task::SendConfig,
        Action::SetLicense => Task::SetLicense(String::from_str(input)),
        Action::SetProxy => Task::WriteConfig(String::from_str("proxy"), String::from_str(input)),
        Action::SetBuffer => Task::WriteConfig(String::from_str("buffer"), String::from_str(input)),
        Action::SetList => {
            let mut target = String::from_str(files_dir);
            target.append(input);
            Task::WriteConfig(String::from_str("target"), target)
        },
        Action::CreateEngine => Task::Nothing,
        Action::Loop => Task::Nothing,
    }
}

} // verus!
