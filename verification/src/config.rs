//! The settings that the application is started with.

use vstd::prelude::*;
use vstd::string::*;

verus! {

/// The lengths of the three phases of a pomodoro, in minutes.
#[derive(Debug, PartialEq, Eq)]
pub struct PomodoroDefaults {
    pub work_time_minutes: u32,
    pub short_break_time_minutes: u32,
    pub long_break_time_minutes: u32,
}

/// The intervals of the timers, in milliseconds.
#[derive(Debug, PartialEq, Eq)]
pub struct TimerDefaults {
    pub standalone_interval_ms: u32,
    pub clock_interval_ms: u32,
    pub timeout_ms: u32,
    pub tick_interval_ms: u32,
}

/// Where and as whom to log in.
#[derive(Debug, PartialEq, Eq)]
pub struct GitHubAuth {
    pub client_id: String,
    pub redirect_uri: String,
    pub token_url: String,
    pub client_secret: String,
    pub user_api_url: String,
}

/// All settings.
#[derive(Debug, PartialEq, Eq)]
pub struct Config {
    pub pomodoro_defaults: PomodoroDefaults,
    pub timer_defaults: TimerDefaults,
    pub tutorial_data_url: String,
    pub alarm_sound_path: String,
    pub github_auth: GitHubAuth,
}

/// What the token endpoint answers.
#[derive(Debug, PartialEq, Eq)]
pub struct TokenResponse {
    pub access_token: String,
    pub token_type: String,
    pub scope: String,
}

/// What the user endpoint answers.
#[derive(Debug, PartialEq, Eq)]
pub struct GitHubUser {
    pub login: String,
    pub avatar_url: String,
    pub name: String,
}

/// The address that a login starts at.
pub open spec fn authorize_url_text(
    client_id: Seq<char>,
    redirect_uri: Seq<char>,
    code_challenge: Seq<char>,
) -> Seq<char> {
    "https://github.com/login/oauth/authorize?client_id="@ + client_id + "&redirect_uri="@
        + redirect_uri + "&scope=user&state=STATE&code_challenge="@ + code_challenge
        + "&code_challenge_method=S256"@
}

impl GitHubAuth {
    /// The address to send the user to, for a login that is proved with the
    /// given code challenge.
    pub fn authorize_url(&self, code_challenge: &str) -> (url: String)
        ensures
            url@ == authorize_url_text(self.client_id@, self.redirect_uri@, code_challenge@),
    {
        let url = String::from_str("https://github.com/login/oauth/authorize?client_id=");
        let url = url.concat(self.client_id.as_str());
        let url = url.concat("&redirect_uri=");
        let url = url.concat(self.redirect_uri.as_str());
        let url = url.concat("&scope=user&state=STATE&code_challenge=");
        let url = url.concat(code_challenge);
        let url = url.concat("&code_challenge_method=S256");
        url
    }
}

} // verus!
