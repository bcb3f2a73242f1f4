//! Settings of the terminal interface: what to connect to, how often to
//! poll, and how to draw.

use vstd::prelude::*;

verus! {

/// Where the monitored application is reached.
#[derive(Debug, Clone)]
pub struct TargetConfig {
    /// "actuator", "jolokia" or "both".
    pub mode: String,
    pub actuator_url: String,
    pub jolokia_url: String,
    pub gc_log_path: Option<String>,
    pub app_log_path: Option<String>,
}

/// How often each source is polled.
#[derive(Debug, Clone)]
pub struct PollingConfig {
    pub metrics_interval_secs: u64,
    pub gc_log_poll_ms: u64,
    pub thread_dump_interval_secs: u64,
    pub deadlock_check_interval_secs: u64,
    pub anomaly_eval_interval_secs: u64,
}

/// How the interface is drawn.
#[derive(Debug, Clone)]
pub struct UiConfig {
    pub theme: String,
    pub tick_rate_hz: u64,
    pub render_rate_hz: u64,
    pub chart_history_multiplier: u32,
}

/// The view of an optional string.
pub open spec fn opt_view(o: Option<String>) -> Option<Seq<char>> {
    match o {
        Some(s) => Some(s@),
        None => None,
    }
}

/// The view of an optional string slice.
pub open spec fn opt_str_view(o: Option<&str>) -> Option<Seq<char>> {
    match o {
        Some(s) => Some(s@),
        None => None,
    }
}

impl Default for TargetConfig {
    /// Both sources, on their usual local ports, with no log files.
    fn default() -> (r: TargetConfig)
        ensures
            r.mode@ == seq!['b', 'o', 't', 'h'],
            r.actuator_url@ == "http://localhost:8080/actuator"@,
            r.jolokia_url@ == "http://localhost:8778/jolokia"@,
            r.gc_log_path is None,
            r.app_log_path is None,
    {
        proof {
            reveal_strlit("both");
        }
        TargetConfig {
            mode: String::from_str("both"),
            actuator_url: String::from_str("http://localhost:8080/actuator"),
            jolokia_url: String::from_str("http://localhost:8778/jolokia"),
            gc_log_path: None,
            app_log_path: None,
        }
    }
}

impl Default for PollingConfig {
    /// Metrics every 2 s, the GC log every 500 ms, thread dumps every 10 s,
    /// deadlock checks every 15 s, anomaly evaluation every 30 s.
    fn default() -> (r: PollingConfig)
        ensures
            r.metrics_interval_secs == 2,
            r.gc_log_poll_ms == 500,
            r.thread_dump_interval_secs == 10,
            r.deadlock_check_interval_secs == 15,
            r.anomaly_eval_interval_secs == 30,
    {
        PollingConfig {
            metrics_interval_secs: 2,
            gc_log_poll_ms: 500,
            thread_dump_interval_secs: 10,
            deadlock_check_interval_secs: 15,
            anomaly_eval_interval_secs: 30,
        }
    }
}

impl Default for UiConfig {
    /// Dark theme, 4 ticks and 30 frames a second, charts holding twice the
    /// visible history.
    fn default() -> (r: UiConfig)
        ensures
            r.theme@ == seq!['d', 'a', 'r', 'k'],
            r.tick_rate_hz == 4,
            r.render_rate_hz == 30,
            r.chart_history_multiplier == 2,
    {
        proof {
            reveal_strlit("dark");
        }
        UiConfig {
            theme: String::from_str("dark"),
            tick_rate_hz: 4,
            render_rate_hz: 30,
            chart_history_multiplier: 2,
        }
    }
}

impl TargetConfig {
    /// Applies the command line's choices: each one given replaces the
    /// setting it names; the rest stay.
    pub fn with_cli_overrides(
        self,
        actuator: Option<&str>,
        jolokia: Option<&str>,
        gc_log: Option<&str>,
    ) -> (r: TargetConfig)
        ensures
            r.mode@ == self.mode@,
            r.actuator_url@ == match actuator {
                Some(u) => u@,
                None => self.actuator_url@,
            },
            r.jolokia_url@ == match jolokia {
                Some(u) => u@,
                None => self.jolokia_url@,
            },
            opt_view(r.gc_log_path) == match gc_log {
                Some(p) => Some(p@),
                None => opt_view(self.gc_log_path),
            },
            opt_view(r.app_log_path) == opt_view(self.app_log_path),
    {
        let mut c = self;
        match actuator {
            Some(u) => {
                c.actuator_url = String::from_str(u);
            },
            None => {},
        }
        match jolokia {
            Some(u) => {
                c.jolokia_url = String::from_str(u);
            },
            None => {},
        }
        match gc_log {
            Some(p) => {
                c.gc_log_path = Some(String::from_str(p));
            },
            None => {},
        }
        c
    }
}

} // verus!
