//! Settings kept in the tray's config file, one `key=value` per line.

use vstd::prelude::*;

use crate::text::{
    chars_of, find, find_in, lemma_lines_first, lemma_trim_unchanged, line_ranges, lines,
    range_eq, range_texts, ranges_within, strip_cr, trim, trim_range,
};

verus! {

/// The three toggles the tray saves.
#[derive(Clone, Copy, PartialEq, Eq, Structural, Debug)]
pub struct Config {
    pub start_at_login: bool,
    pub hide_when_stopped: bool,
    pub auto_stop_when_idle: bool,
}

/// One of the settings in `Config`.
#[derive(Clone, Copy, PartialEq, Eq, Structural, Debug)]
pub enum ConfigField {
    StartAtLogin,
    HideWhenStopped,
    AutoStopWhenIdle,
}

/// The key under which a setting is saved.
pub open spec fn key_text(field: ConfigField) -> Seq<char> {
    match field {
        ConfigField::StartAtLogin => "start_at_login"@,
        ConfigField::HideWhenStopped => "hide_when_stopped"@,
        ConfigField::AutoStopWhenIdle => "auto_stop_when_idle"@,
    }
}

/// The setting saved under `key`, if any.
pub open spec fn field_for_key(key: Seq<char>) -> Option<ConfigField> {
    if key == "start_at_login"@ {
        Some(ConfigField::StartAtLogin)
    } else if key == "hide_when_stopped"@ {
        Some(ConfigField::HideWhenStopped)
    } else if key == "auto_stop_when_idle"@ {
        Some(ConfigField::AutoStopWhenIdle)
    } else {
        None
    }
}

/// How a setting's value is written.
pub open spec fn bool_text(b: bool) -> Seq<char> {
    if b {
        "true"@
    } else {
        "false"@
    }
}

/// The line that saves one setting, with its line ending.
pub open spec fn setting_line(field: ConfigField, b: bool) -> Seq<char> {
    key_text(field) + "="@ + bool_text(b) + "\n"@
}

/// What one line of the file does to the settings read so far. A line
/// without `=` and a line with an unknown key change nothing; a known key is
/// on exactly when its trimmed value is `true`.
pub open spec fn apply_line(c: Config, line: Seq<char>) -> Config {
    match find(line, '=') {
        None => c,
        Some(i) => match field_for_key(trim(line.take(i))) {
            Some(field) => c.set(field, trim(line.skip(i + 1)) == "true"@),
            None => c,
        },
    }
}

/// The settings after reading `ls` in order, starting from `c`.
pub open spec fn apply_lines(c: Config, ls: Seq<Seq<char>>) -> Config
    decreases ls.len(),
{
    if ls.len() == 0 {
        c
    } else {
        apply_lines(apply_line(c, ls[0]), ls.drop_first())
    }
}

/// The settings that a config file with this text holds.
pub open spec fn parsed(text: Seq<char>) -> Config {
    apply_lines(Config::all_off(), lines(text))
}

/// The text the settings are saved as.
pub open spec fn rendered(c: Config) -> Seq<char> {
    setting_line(ConfigField::StartAtLogin, c.start_at_login) + setting_line(
        ConfigField::HideWhenStopped,
        c.hide_when_stopped,
    ) + setting_line(ConfigField::AutoStopWhenIdle, c.auto_stop_when_idle)
}

/// The directory the config file lives under.
#[derive(Clone, Copy, PartialEq, Eq, Structural, Debug)]
pub enum ConfigBase {
    /// `$XDG_CONFIG_HOME`.
    XdgConfigHome,
    /// `.config` in the home directory.
    HomeConfig,
}

/// Where the config file lives below its base directory.
pub const CONFIG_FILE: &'static str = "waydroid-tray/config";

/// The base of the config file: `$XDG_CONFIG_HOME` when it is set and not
/// empty, `~/.config` otherwise. `xdg_config_home` is the variable's value.
pub fn config_base(xdg_config_home: Option<&str>) -> (b: ConfigBase)
    ensures
        b == (if xdg_config_home is Some && xdg_config_home->0@.len() > 0 {
            ConfigBase::XdgConfigHome
        } else {
            ConfigBase::HomeConfig
        }),
{
    match xdg_config_home {
        Some(dir) => if dir.is_empty() {
            ConfigBase::HomeConfig
        } else {
            ConfigBase::XdgConfigHome
        },
        None => ConfigBase::HomeConfig,
    }
}

impl ConfigField {
    /// The key under which this setting is saved.
    pub fn key(self) -> (k: &'static str)
        ensures
            k@ == key_text(self),
    {
        match self {
            ConfigField::StartAtLogin => "start_at_login",
            ConfigField::HideWhenStopped => "hide_when_stopped",
            ConfigField::AutoStopWhenIdle => "auto_stop_when_idle",
        }
    }
}

impl Default for Config {
    /// Everything off: what a missing file means.
    fn default() -> (c: Self)
        ensures
            c == Config::all_off(),
    {
        Config { start_at_login: false, hide_when_stopped: false, auto_stop_when_idle: false }
    }
}

impl Config {
    /// Every setting off.
    pub open spec fn all_off() -> Config {
        Config { start_at_login: false, hide_when_stopped: false, auto_stop_when_idle: false }
    }

    /// The value of one setting.
    pub open spec fn get(self, field: ConfigField) -> bool {
        match field {
            ConfigField::StartAtLogin => self.start_at_login,
            ConfigField::HideWhenStopped => self.hide_when_stopped,
            ConfigField::AutoStopWhenIdle => self.auto_stop_when_idle,
        }
    }

    /// These settings with one of them set to `value`.
    pub open spec fn set(self, field: ConfigField, value: bool) -> Config {
        match field {
            ConfigField::StartAtLogin => Config { start_at_login: value, ..self },
            ConfigField::HideWhenStopped => Config { hide_when_stopped: value, ..self },
            ConfigField::AutoStopWhenIdle => Config { auto_stop_when_idle: value, ..self },
        }
    }

    /// The value of one setting.
    pub fn value(self, field: ConfigField) -> (b: bool)
        ensures
            b == self.get(field),
    {
        match field {
            ConfigField::StartAtLogin => self.start_at_login,
            ConfigField::HideWhenStopped => self.hide_when_stopped,
            ConfigField::AutoStopWhenIdle => self.auto_stop_when_idle,
        }
    }

    /// These settings with one of them flipped.
    pub fn toggled(self, field: ConfigField) -> (c: Config)
        ensures
            c == self.set(field, !self.get(field)),
    {
        let mut c = self;
        match field {
            ConfigField::StartAtLogin => c.start_at_login = !c.start_at_login,
            ConfigField::HideWhenStopped => c.hide_when_stopped = !c.hide_when_stopped,
            ConfigField::AutoStopWhenIdle => c.auto_stop_when_idle = !c.auto_stop_when_idle,
        }
        c
    }

    /// Reads the settings from the text of a config file. Unknown keys and
    /// malformed lines are ignored; a later line wins over an earlier one.
    pub fn parse(text: &str) -> (c: Config)
        ensures
            c == parsed(text@),
    {
        let v = chars_of(text);
        let ranges = line_ranges(&v);
        let ghost ls = lines(v@);
        let mut c = Config::default();
        let mut k: usize = 0;
        assert(ls.skip(0) =~= ls);
        while k < ranges.len()
            invariant
                ranges_within(v@, ranges@),
                range_texts(v@, ranges@) == ls,
                ls == lines(text@),
                k <= ranges.len(),
                apply_lines(c, ls.skip(k as int)) == parsed(text@),
            decreases ranges.len() - k,
        {
            let (a, b) = ranges[k];
            let ghost line = v@.subrange(a as int, b as int);
            assert(ls[k as int] == line);
            assert(ls.skip(k as int).drop_first() =~= ls.skip(k + 1));
            assert(ls.skip(k as int)[0] == line);
            if let Some(e) = find_in(&v, '=', a, b) {
                assert(line.take(e - a) =~= v@.subrange(a as int, e as int));
                assert(line.skip(e - a + 1) =~= v@.subrange(e + 1, b as int));
                let (ka, kb) = trim_range(&v, a, e);
                let (va, vb) = trim_range(&v, e + 1, b);
                let on = range_eq(&v, va, vb, "true");
                if range_eq(&v, ka, kb, "start_at_login") {
                    c.start_at_login = on;
                } else if range_eq(&v, ka, kb, "hide_when_stopped") {
                    c.hide_when_stopped = on;
                } else if range_eq(&v, ka, kb, "auto_stop_when_idle") {
                    c.auto_stop_when_idle = on;
                }
            }
            k = k + 1;
        }
        c
    }

    /// The text the settings are saved as, one `key=value` line each.
    pub fn render(self) -> (s: String)
        ensures
            s@ == rendered(self),
    {
        let mut s = String::new();
        push_setting(&mut s, ConfigField::StartAtLogin, self.start_at_login);
        push_setting(&mut s, ConfigField::HideWhenStopped, self.hide_when_stopped);
        push_setting(&mut s, ConfigField::AutoStopWhenIdle, self.auto_stop_when_idle);
        assert(s@ =~= rendered(self));
        s
    }

    /// Whether the tray starts a session when it starts: when asked to, and
    /// only if no session is running yet.
    pub fn starts_session_at_login(self, session_up: bool) -> (b: bool)
        ensures
            b == (self.start_at_login && !session_up),
    {
        self.start_at_login && !session_up
    }

    /// The settings a config file gives: its text when it could be read,
    /// every setting off when it is missing or unreadable.
    pub fn load_text(text: Option<&str>) -> (c: Config)
        ensures
            c == match text {
                Some(t) => parsed(t@),
                None => Config::all_off(),
            },
    {
        match text {
            Some(t) => Config::parse(t),
            None => Config::default(),
        }
    }
}

/// Appends the line that saves one setting.
fn push_setting(s: &mut String, field: ConfigField, b: bool)
    ensures
        final(s)@ == old(s)@ + setting_line(field, b),
{
    s.append(field.key());
    s.append("=");
    s.append(if b { "true" } else { "false" });
    s.append("\n");
}

/// Reading back what `setting_line` wrote sets that one setting.
proof fn lemma_apply_setting(c: Config, field: ConfigField, b: bool)
    ensures
        apply_line(c, key_text(field) + "="@ + bool_text(b)) == c.set(field, b),
{
    reveal_strlit("start_at_login");
    reveal_strlit("hide_when_stopped");
    reveal_strlit("auto_stop_when_idle");
    reveal_strlit("=");
    reveal_strlit("true");
    reveal_strlit("false");
    let k = key_text(field);
    let line = k + "="@ + bool_text(b);
    assert(line[k.len() as int] == '=');
    assert(forall|j: int| 0 <= j < k.len() ==> line[j] != '=');
    crate::text::lemma_find_first(line, '=', k.len() as int);
    assert(line.take(k.len() as int) =~= k);
    assert(line.skip(k.len() as int + 1) =~= bool_text(b));
    lemma_trim_unchanged(k);
    lemma_trim_unchanged(bool_text(b));
    assert("false"@ != "true"@) by {
        assert("false"@.len() != "true"@.len());
    }
    assert(field_for_key(k) == Some(field)) by {
        assert("hide_when_stopped"@ != "start_at_login"@) by {
            assert("hide_when_stopped"@.len() != "start_at_login"@.len());
        }
        assert("auto_stop_when_idle"@ != "start_at_login"@) by {
            assert("auto_stop_when_idle"@.len() != "start_at_login"@.len());
        }
        assert("auto_stop_when_idle"@ != "hide_when_stopped"@) by {
            assert("auto_stop_when_idle"@.len() != "hide_when_stopped"@.len());
        }
    }
}

/// The line that `setting_line` wrote, split off the text after it.
proof fn lemma_setting_line_first(field: ConfigField, b: bool, rest: Seq<char>)
    ensures
        lines(setting_line(field, b) + rest) == seq![key_text(field) + "="@ + bool_text(b)] + lines(rest),
{
    reveal_strlit("start_at_login");
    reveal_strlit("hide_when_stopped");
    reveal_strlit("auto_stop_when_idle");
    reveal_strlit("=");
    reveal_strlit("true");
    reveal_strlit("false");
    reveal_strlit("\n");
    let a = key_text(field) + "="@ + bool_text(b);
    assert(setting_line(field, b) + rest =~= a + seq!['\n'] + rest);
    assert(forall|j: int| 0 <= j < a.len() ==> a[j] != '\n');
    lemma_lines_first(a, rest);
    assert(strip_cr(a) == a);
}

/// Saving the settings and reading the file back gives the same settings.
pub proof fn lemma_round_trip(c: Config)
    ensures
        parsed(rendered(c)) == c,
{
    let l1 = setting_line(ConfigField::StartAtLogin, c.start_at_login);
    let l2 = setting_line(ConfigField::HideWhenStopped, c.hide_when_stopped);
    let l3 = setting_line(ConfigField::AutoStopWhenIdle, c.auto_stop_when_idle);
    let empty = Seq::<char>::empty();
    assert(rendered(c) =~= l1 + (l2 + (l3 + empty)));
    lemma_setting_line_first(ConfigField::AutoStopWhenIdle, c.auto_stop_when_idle, empty);
    lemma_setting_line_first(ConfigField::HideWhenStopped, c.hide_when_stopped, l3 + empty);
    lemma_setting_line_first(ConfigField::StartAtLogin, c.start_at_login, l2 + (l3 + empty));
    let a1 = key_text(ConfigField::StartAtLogin) + "="@ + bool_text(c.start_at_login);
    let a2 = key_text(ConfigField::HideWhenStopped) + "="@ + bool_text(c.hide_when_stopped);
    let a3 = key_text(ConfigField::AutoStopWhenIdle) + "="@ + bool_text(c.auto_stop_when_idle);
    assert(lines(empty) =~= Seq::<Seq<char>>::empty());
    let ls = lines(rendered(c));
    assert(ls =~= seq![a1, a2, a3]);
    lemma_apply_setting(Config::all_off(), ConfigField::StartAtLogin, c.start_at_login);
    let c1 = Config::all_off().set(ConfigField::StartAtLogin, c.start_at_login);
    lemma_apply_setting(c1, ConfigField::HideWhenStopped, c.hide_when_stopped);
    let c2 = c1.set(ConfigField::HideWhenStopped, c.hide_when_stopped);
    lemma_apply_setting(c2, ConfigField::AutoStopWhenIdle, c.auto_stop_when_idle);
    assert(ls.drop_first() =~= seq![a2, a3]);
    assert(ls.drop_first().drop_first() =~= seq![a3]);
    assert(ls.drop_first().drop_first().drop_first() =~= Seq::<Seq<char>>::empty());
    let c3 = c2.set(ConfigField::AutoStopWhenIdle, c.auto_stop_when_idle);
    assert(apply_lines(c3, ls.drop_first().drop_first().drop_first()) == c3);
    assert(apply_lines(c2, ls.drop_first().drop_first()) == c3);
    assert(apply_lines(c1, ls.drop_first()) == c3);
    assert(apply_lines(Config::all_off(), ls) == c3);
    assert(c3 == c);
}

/// Malformed lines are ignored: a line without `=`, or whose trimmed key is
/// not a setting's, leaves the settings as they were.
pub proof fn lemma_ignored_lines(c: Config, line: Seq<char>)
    requires
        match find(line, '=') {
            None => true,
            Some(i) => field_for_key(trim(line.take(i))) is None,
        },
    ensures
        apply_line(c, line) == c,
{
}

/// Whether a line is one that `apply_line` ignores: it has no `=`, or its
/// trimmed key is not a setting's.
pub open spec fn ignored_line(line: Seq<char>) -> bool {
    match find(line, '=') {
        None => true,
        Some(i) => field_for_key(trim(line.take(i))) is None,
    }
}

/// A whole run of malformed or unknown lines is ignored: reading them leaves
/// the settings as they were, so a file made only of such lines holds the
/// defaults.
pub proof fn lemma_ignored_text(c: Config, ls: Seq<Seq<char>>)
    requires
        forall|k: int| 0 <= k < ls.len() ==> ignored_line(#[trigger] ls[k]),
    ensures
        apply_lines(c, ls) == c,
    decreases ls.len(),
{
    if ls.len() > 0 {
        lemma_ignored_lines(c, ls[0]);
        assert(forall|k: int| 0 <= k < ls.drop_first().len() ==> #[trigger] ls.drop_first()[k] == ls[k + 1]);
        lemma_ignored_text(c, ls.drop_first());
    }
}

/// Text whose lines are all malformed or unknown holds the defaults.
pub proof fn lemma_ignored_file(text: Seq<char>)
    requires
        forall|k: int| 0 <= k < lines(text).len() ==> ignored_line(#[trigger] lines(text)[k]),
    ensures
        parsed(text) == Config::all_off(),
{
    lemma_ignored_text(Config::all_off(), lines(text));
}

/// A later line for a setting wins over every earlier one.
pub proof fn lemma_last_line_wins(c: Config, ls: Seq<Seq<char>>, field: ConfigField, b: bool)
    ensures
        apply_lines(c, ls + seq![key_text(field) + "="@ + bool_text(b)]).get(field) == b,
    decreases ls.len(),
{
    let l = key_text(field) + "="@ + bool_text(b);
    let all = ls + seq![l];
    if ls.len() == 0 {
        lemma_apply_setting(c, field, b);
        assert(all[0] == l);
        assert(all.drop_first() =~= Seq::<Seq<char>>::empty());
        assert(apply_lines(apply_line(c, l), all.drop_first()) == apply_line(c, l));
    } else {
        assert(all[0] == ls[0]);
        assert(all.drop_first() =~= ls.drop_first() + seq![l]);
        lemma_last_line_wins(apply_line(c, ls[0]), ls.drop_first(), field, b);
    }
}

/// Flipping the same setting twice gives the settings back.
pub proof fn lemma_toggle_twice(c: Config, field: ConfigField)
    ensures
        c.set(field, !c.get(field)).set(field, !c.set(field, !c.get(field)).get(field)) == c,
{
}

/// Flipping a setting changes that setting and no other.
pub proof fn lemma_toggle_one(c: Config, field: ConfigField, other: ConfigField)
    ensures
        c.set(field, !c.get(field)).get(field) == !c.get(field),
        other != field ==> c.set(field, !c.get(field)).get(other) == c.get(other),
{
}

} // verus!
