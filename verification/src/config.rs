//! User preferences: the persisted settings model, its defaults, and the
//! in-memory updates and migrations applied to it.
use vstd::prelude::*;

use crate::text::copy_string;

verus! {

/// Absolute floor for brightness — never allow less than this regardless of user config.
pub const ABSOLUTE_MIN_BRIGHTNESS: u32 = 5;

/// Tiling window manager preferences.
#[derive(Clone, Debug)]
pub struct TilingPreferences {
    /// Master toggle to enable/disable all tiling features.
    pub enabled: bool,
    /// Percentage for half splits (affects halves and quarter corners).
    pub half_ratio: u32,
    /// Percentage for third splits. Center/middle = 100 - 2*third.
    pub third_ratio: u32,
    /// Gap in points between tiled windows and screen edges.
    pub gap: u32,
    /// Toggle for Tile Snap (mouse edge snapping); effective only with `enabled`.
    pub tile_snap_enabled: bool,
    /// Tile Snap: pixel width of the side edge hot zone (left/right/bottom).
    pub side_edge_trigger: u32,
    /// Tile Snap: pixel height of the top edge hot zone (maximize trigger).
    pub top_edge_trigger: u32,
    /// Tile Snap: pixel size of the corner hot zone (quarter tile trigger).
    pub corner_trigger: u32,
    /// Master toggle to enable/disable Exposé features.
    pub expose_enabled: bool,
    /// Exposé: number of columns in the grid.
    pub expose_columns: u32,
    /// Exposé: number of rows in the grid.
    pub expose_rows: u32,
    /// Exposé layout strategy: "spread" or "fill".
    pub expose_layout_strategy: String,
    /// Exposé: minimum grid cell width in logical pixels.
    pub expose_min_width: u32,
    /// Exposé: minimum grid cell height in logical pixels.
    pub expose_min_height: u32,
    /// Legacy squared grid size read from old configs; never written back.
    pub expose_max_windows: u32,
}

impl Default for TilingPreferences {
    fn default() -> (res: Self)
        ensures
            res.enabled,
            res.half_ratio == 50,
            res.third_ratio == 33,
            res.gap == 0,
            res.tile_snap_enabled,
            res.side_edge_trigger == 18,
            res.top_edge_trigger == 18,
            res.corner_trigger == 30,
            res.expose_enabled,
            res.expose_columns == 3,
            res.expose_rows == 3,
            res.expose_layout_strategy@ == "fill"@,
            res.expose_min_width == 400,
            res.expose_min_height == 300,
            res.expose_max_windows == 0,
    {
        TilingPreferences {
            enabled: true,
            half_ratio: 50,
            third_ratio: 33,
            gap: 0,
            tile_snap_enabled: true,
            side_edge_trigger: 18,
            top_edge_trigger: 18,
            corner_trigger: 30,
            expose_enabled: true,
            expose_columns: 3,
            expose_rows: 3,
            expose_layout_strategy: String::from_str("fill"),
            expose_min_width: 400,
            expose_min_height: 300,
            expose_max_windows: 0,
        }
    }
}

/// The `brightness_mode` a monitor entry gets when none is stored: `"auto"`.
pub fn default_brightness_mode() -> (res: String)
    ensures
        res@ == "auto"@,
{
    String::from_str("auto")
}

/// Per-monitor metadata stored in preferences. Entries are added when a monitor
/// is first detected and never removed on unplug.
#[derive(Clone, Debug, PartialEq)]
pub struct MonitorMetadata {
    /// Composite unique key: "{api_id}::{api_name}".
    pub uid: String,
    /// Raw ID from the platform layer (e.g. "1", "builtin").
    pub api_id: String,
    /// Model name from the platform layer.
    pub api_name: String,
    /// User-set friendly label. Empty string means use api_name.
    pub label: String,
    /// Sort order for UI display. Lower values come first.
    pub sort_order: i32,
    /// Whether the monitor is hidden from the default UI view.
    pub hidden: bool,
    /// Brightness control strategy: "auto", "ddc", "gamma" or "overlay".
    pub brightness_mode: String,
}

/// Mathematical view of a metadata entry.
pub struct MetaView {
    pub uid: Seq<char>,
    pub api_id: Seq<char>,
    pub api_name: Seq<char>,
    pub label: Seq<char>,
    pub sort_order: i32,
    pub hidden: bool,
    pub brightness_mode: Seq<char>,
}

impl View for MonitorMetadata {
    type V = MetaView;

    open spec fn view(&self) -> MetaView {
        MetaView {
            uid: self.uid@,
            api_id: self.api_id@,
            api_name: self.api_name@,
            label: self.label@,
            sort_order: self.sort_order,
            hidden: self.hidden,
            brightness_mode: self.brightness_mode@,
        }
    }
}

/// Views of a list of metadata entries.
pub open spec fn meta_views(v: Seq<MonitorMetadata>) -> Seq<MetaView> {
    v.map_values(|m: MonitorMetadata| m@)
}

/// Field-wise copy of a metadata entry.
pub fn copy_metadata(m: &MonitorMetadata) -> (res: MonitorMetadata)
    ensures
        res == *m,
{
    MonitorMetadata {
        uid: m.uid.clone(),
        api_id: m.api_id.clone(),
        api_name: m.api_name.clone(),
        label: m.label.clone(),
        sort_order: m.sort_order,
        hidden: m.hidden,
        brightness_mode: m.brightness_mode.clone(),
    }
}

/// Night mode schedule: brightness and theme (or custom commands) applied when
/// the local time enters the night or day window.
#[derive(Clone, Debug)]
pub struct NightModeSchedule {
    pub enabled: bool,
    /// "HH:MM" 24-hour format
    pub night_start: String,
    pub night_brightness: u32,
    /// "HH:MM" 24-hour format
    pub day_start: String,
    pub day_brightness: u32,
    /// Commands to run when night starts; when non-empty they replace the default behavior.
    pub night_commands: Vec<String>,
    /// Commands to run when day starts; when non-empty they replace the default behavior.
    pub day_commands: Vec<String>,
}

impl Default for NightModeSchedule {
    fn default() -> (res: Self)
        ensures
            !res.enabled,
            res.night_start@ == "21:00"@,
            res.night_brightness == 20,
            res.day_start@ == "07:00"@,
            res.day_brightness == 100,
            res.night_commands@.len() == 0,
            res.day_commands@.len() == 0,
    {
        NightModeSchedule {
            enabled: false,
            night_start: String::from_str("21:00"),
            night_brightness: 20,
            day_start: String::from_str("07:00"),
            day_brightness: 100,
            night_commands: Vec::new(),
            day_commands: Vec::new(),
        }
    }
}

/// A rule within a layout preset: match windows by app name and apply a layout.
#[derive(Clone, Debug)]
pub struct LayoutRule {
    /// Substring matched case-insensitively against the window's app name.
    pub app_match: String,
    /// Tiling layout name in camelCase (e.g. "leftHalf", "maximize").
    pub layout: String,
    /// Optional 0-based display index; `None` keeps the window's current display.
    pub display_index: Option<usize>,
}

impl Default for LayoutRule {
    fn default() -> (res: Self)
        ensures
            res.app_match@.len() == 0,
            res.layout@.len() == 0,
            res.display_index is None,
    {
        LayoutRule { app_match: String::new(), layout: String::new(), display_index: None }
    }
}

/// The wallpaper path set on a specific monitor.
#[derive(Clone, Debug)]
pub struct MonitorWallpaper {
    /// UID of the monitor.
    pub monitor_uid: String,
    /// Path to the wallpaper file.
    pub wallpaper_path: String,
}

/// Wallpaper preferences: fit mode, current wallpaper and slideshow settings.
#[derive(Clone, Debug)]
pub struct WallpaperPreferences {
    /// fill, fit, stretch, center or tile.
    pub fit: String,
    /// Currently active wallpaper (all monitors).
    pub current_wallpaper_path: Option<String>,
    /// Per-monitor wallpaper state.
    pub per_monitor_wallpapers: Vec<MonitorWallpaper>,
    /// Whether the slideshow is enabled (resumed on restart).
    pub slideshow_enabled: bool,
    /// Folder of slideshow images.
    pub slideshow_folder: Option<String>,
    /// Slideshow interval in minutes (minimum 5).
    pub slideshow_interval_minutes: u32,
    /// "forward", "backward" or "random".
    pub slideshow_order: String,
}

impl Default for WallpaperPreferences {
    fn default() -> (res: Self)
        ensures
            res.fit@ == "fill"@,
            res.current_wallpaper_path is None,
            res.per_monitor_wallpapers@.len() == 0,
            !res.slideshow_enabled,
            res.slideshow_folder is None,
            res.slideshow_interval_minutes == 30,
            res.slideshow_order@ == "forward"@,
    {
        WallpaperPreferences {
            fit: String::from_str("fill"),
            current_wallpaper_path: None,
            per_monitor_wallpapers: Vec::new(),
            slideshow_enabled: false,
            slideshow_folder: None,
            slideshow_interval_minutes: 30,
            slideshow_order: String::from_str("forward"),
        }
    }
}

/// Keyboard backlight preferences; `enabled` is the master switch.
#[derive(Clone, Debug)]
pub struct KeyboardBacklightPreferences {
    pub enabled: bool,
}

impl Default for KeyboardBacklightPreferences {
    fn default() -> (res: Self)
        ensures
            res.enabled,
    {
        KeyboardBacklightPreferences { enabled: true }
    }
}

/// A named window layout preset.
#[derive(Clone, Debug)]
pub struct LayoutPreset {
    /// User-visible name.
    pub name: String,
    /// Ordered rules; each matched window is tiled once (first matching rule wins).
    pub rules: Vec<LayoutRule>,
}

impl Default for LayoutPreset {
    fn default() -> (res: Self)
        ensures
            res.name@.len() == 0,
            res.rules@.len() == 0,
    {
        LayoutPreset { name: String::new(), rules: Vec::new() }
    }
}

/// A command or a list of commands bound to a shortcut or profile.
#[derive(Clone, Debug)]
pub enum CommandValue {
    Single(String),
    Multiple(Vec<String>),
}

/// Mathematical view of a `CommandValue`.
pub enum CommandView {
    Single(Seq<char>),
    Multiple(Seq<Seq<char>>),
}

impl View for CommandValue {
    type V = CommandView;

    open spec fn view(&self) -> CommandView {
        match self {
            CommandValue::Single(s) => CommandView::Single(s@),
            CommandValue::Multiple(v) => CommandView::Multiple(
                v@.map_values(|s: String| s@),
            ),
        }
    }
}

/// A global keyboard shortcut and the command it triggers.
#[derive(Clone, Debug)]
pub struct KeyBinding {
    pub key: String,
    pub command: CommandValue,
}

impl View for KeyBinding {
    type V = (Seq<char>, CommandView);

    open spec fn view(&self) -> (Seq<char>, CommandView) {
        (self.key@, self.command@)
    }
}

/// A named profile applying one or more commands.
#[derive(Clone, Debug)]
pub struct Profile {
    pub name: String,
    pub command: CommandValue,
}

impl View for Profile {
    type V = (Seq<char>, CommandView);

    open spec fn view(&self) -> (Seq<char>, CommandView) {
        (self.name@, self.command@)
    }
}

impl Default for Profile {
    fn default() -> (res: Self)
        ensures
            res@ == (Seq::<char>::empty(), CommandView::Single(Seq::<char>::empty())),
    {
        let r = Profile { name: String::new(), command: CommandValue::Single(String::new()) };
        assert(r@.1 == CommandView::Single(Seq::<char>::empty()));
        r
    }
}

/// All persisted user preferences.
#[derive(Clone, Debug)]
pub struct Preferences {
    pub show_individual_displays: bool,
    pub min_brightness: u32,
    pub key_bindings: Vec<KeyBinding>,
    pub profiles: Vec<Profile>,
    pub night_mode_schedule: NightModeSchedule,
    pub show_contrast: bool,
    pub debug_logging: bool,
    pub launch_at_login: bool,
    pub monitor_configs: Vec<MonitorMetadata>,
    pub tiling: TilingPreferences,
    /// Named window layout presets, triggered via `command/layout/{name_or_index}`.
    pub layout_presets: Vec<LayoutPreset>,
    /// Wallpaper preferences.
    pub wallpaper: WallpaperPreferences,
    /// Keyboard backlight preferences.
    pub keyboard_backlight: KeyboardBacklightPreferences,
}

impl Preferences {
    /// The effective minimum brightness: the configured minimum, but never
    /// below `ABSOLUTE_MIN_BRIGHTNESS`.
    pub fn effective_min_brightness(&self) -> (res: u32)
        ensures
            res == if self.min_brightness >= ABSOLUTE_MIN_BRIGHTNESS {
                self.min_brightness
            } else {
                ABSOLUTE_MIN_BRIGHTNESS
            },
    {
        if self.min_brightness >= ABSOLUTE_MIN_BRIGHTNESS {
            self.min_brightness
        } else {
            ABSOLUTE_MIN_BRIGHTNESS
        }
    }
}

/// A binding of `key` to the single command `cmd`.
pub open spec fn single(key: Seq<char>, cmd: Seq<char>) -> (Seq<char>, CommandView) {
    (key, CommandView::Single(cmd))
}

/// The shortcuts a fresh install starts with, in order.
pub open spec fn default_key_bindings() -> Seq<(Seq<char>, CommandView)> {
    seq![
        single("Shift+Escape"@, "command/changeDarkMode/toggle"@),
        ("Shift+F1"@, CommandView::Multiple(seq!["command/changeBrightness/10"@, "command/changeDarkMode/dark"@])),
        ("Shift+F2"@, CommandView::Multiple(seq!["command/changeProfile/2"@, "command/changeKeyboardBacklight/0"@])),
        single("Shift+F3"@, "command/changeBrightness/0"@),
        single("Shift+F4"@, "command/changeBrightness/50"@),
        single("Shift+F5"@, "command/changeBrightness/100"@),
        single("Shift+F10"@, "command/changeVolume/0"@),
        single("Shift+F11"@, "command/changeVolume/10"@),
        single("Shift+F12"@, "command/changeVolume/100"@),
        single("Shift+Ctrl+Left"@, "command/tile/leftThird"@),
        single("Shift+Ctrl+Right"@, "command/tile/rightThird"@),
        single("Shift+Ctrl+Up"@, "command/tile/leftTwoThirds"@),
        single("Shift+Ctrl+Down"@, "command/tile/rightTwoThirds"@),
        single("Shift+Ctrl+D"@, "command/tile/leftThird"@),
        single("Shift+Ctrl+C"@, "command/tile/centerThird"@),
        single("Shift+Ctrl+G"@, "command/tile/rightThird"@),
        single("Shift+Ctrl+I"@, "command/tile/topLeftQuarter"@),
        single("Shift+Ctrl+O"@, "command/tile/topRightQuarter"@),
        single("Shift+Ctrl+K"@, "command/tile/bottomLeftQuarter"@),
        single("Shift+Ctrl+L"@, "command/tile/bottomRightQuarter"@),
        single("Shift+Ctrl+M"@, "command/tile/maximize"@),
        single("Shift+Ctrl+/"@, "command/tile/maximize"@),
        single("Shift+Ctrl+E"@, "command/tile/expose"@),
        single("Ctrl+Up"@, "command/tile/expose"@),
        single("Shift+Ctrl+A"@, "command/tile/exposeApp"@),
        single("Ctrl+Down"@, "command/tile/exposeApp"@),
        single("Shift+Ctrl+Super+Left"@, "command/app/moveToBack"@),
        single("Shift+Ctrl+Super+Right"@, "command/app/moveToFront"@),
    ]
}

/// The profiles a fresh install starts with, in order.
pub open spec fn default_profiles() -> Seq<(Seq<char>, CommandView)> {
    seq![
        ("Presentation"@, CommandView::Multiple(seq!["command/changeBrightness/100"@, "command/changeDarkMode/light"@, "command/changeVolume/50"@])),
        ("Focus"@, CommandView::Multiple(seq!["command/changeBrightness/75"@, "command/changeDarkMode/dark"@, "command/changeVolume/30"@])),
        ("Daylight"@, CommandView::Multiple(seq!["command/changeBrightness/100"@, "command/changeDarkMode/light"@, "command/changeVolume/100"@])),
    ]
}

/// Views of a list of key bindings or profiles.
pub open spec fn binding_views(v: Seq<KeyBinding>) -> Seq<(Seq<char>, CommandView)> {
    v.map_values(|b: KeyBinding| b@)
}

pub open spec fn profile_views(v: Seq<Profile>) -> Seq<(Seq<char>, CommandView)> {
    v.map_values(|p: Profile| p@)
}

fn bind(v: &mut Vec<KeyBinding>, key: &str, cmd: &str)
    ensures
        binding_views(final(v)@) == binding_views(old(v)@).push(single(key@, cmd@)),
{
    let b = KeyBinding { key: String::from_str(key), command: CommandValue::Single(String::from_str(cmd)) };
    v.push(b);
    assert(binding_views(v@) =~= binding_views(old(v)@).push(single(key@, cmd@)));
}

fn strings2(a: &str, b: &str) -> (res: Vec<String>)
    ensures
        res@.map_values(|s: String| s@) == seq![a@, b@],
{
    let mut v: Vec<String> = Vec::new();
    v.push(String::from_str(a));
    v.push(String::from_str(b));
    assert(v@.map_values(|s: String| s@) =~= seq![a@, b@]);
    v
}

fn strings3(a: &str, b: &str, c: &str) -> (res: Vec<String>)
    ensures
        res@.map_values(|s: String| s@) == seq![a@, b@, c@],
{
    let mut v: Vec<String> = Vec::new();
    v.push(String::from_str(a));
    v.push(String::from_str(b));
    v.push(String::from_str(c));
    assert(v@.map_values(|s: String| s@) =~= seq![a@, b@, c@]);
    v
}

fn default_bindings_vec() -> (res: Vec<KeyBinding>)
    ensures
        binding_views(res@) == default_key_bindings(),
{
    let mut v: Vec<KeyBinding> = Vec::new();
    bind(&mut v, "Shift+Escape", "command/changeDarkMode/toggle");
    let ghost before = binding_views(v@);
    let f1 = KeyBinding {
        key: String::from_str("Shift+F1"),
        command: CommandValue::Multiple(
            strings2("command/changeBrightness/10", "command/changeDarkMode/dark"),
        ),
    };
    v.push(f1);
    assert(binding_views(v@) =~= before.push(
        ("Shift+F1"@, CommandView::Multiple(seq!["command/changeBrightness/10"@, "command/changeDarkMode/dark"@])),
    ));
    let ghost before = binding_views(v@);
    let f2 = KeyBinding {
        key: String::from_str("Shift+F2"),
        command: CommandValue::Multiple(
            strings2("command/changeProfile/2", "command/changeKeyboardBacklight/0"),
        ),
    };
    v.push(f2);
    assert(binding_views(v@) =~= before.push(
        ("Shift+F2"@, CommandView::Multiple(seq!["command/changeProfile/2"@, "command/changeKeyboardBacklight/0"@])),
    ));
    bind(&mut v, "Shift+F3", "command/changeBrightness/0");
    bind(&mut v, "Shift+F4", "command/changeBrightness/50");
    bind(&mut v, "Shift+F5", "command/changeBrightness/100");
    bind(&mut v, "Shift+F10", "command/changeVolume/0");
    bind(&mut v, "Shift+F11", "command/changeVolume/10");
    bind(&mut v, "Shift+F12", "command/changeVolume/100");
    bind(&mut v, "Shift+Ctrl+Left", "command/tile/leftThird");
    bind(&mut v, "Shift+Ctrl+Right", "command/tile/rightThird");
    bind(&mut v, "Shift+Ctrl+Up", "command/tile/leftTwoThirds");
    bind(&mut v, "Shift+Ctrl+Down", "command/tile/rightTwoThirds");
    bind(&mut v, "Shift+Ctrl+D", "command/tile/leftThird");
    bind(&mut v, "Shift+Ctrl+C", "command/tile/centerThird");
    bind(&mut v, "Shift+Ctrl+G", "command/tile/rightThird");
    bind(&mut v, "Shift+Ctrl+I", "command/tile/topLeftQuarter");
    bind(&mut v, "Shift+Ctrl+O", "command/tile/topRightQuarter");
    bind(&mut v, "Shift+Ctrl+K", "command/tile/bottomLeftQuarter");
    bind(&mut v, "Shift+Ctrl+L", "command/tile/bottomRightQuarter");
    bind(&mut v, "Shift+Ctrl+M", "command/tile/maximize");
    bind(&mut v, "Shift+Ctrl+/", "command/tile/maximize");
    bind(&mut v, "Shift+Ctrl+E", "command/tile/expose");
    bind(&mut v, "Ctrl+Up", "command/tile/expose");
    bind(&mut v, "Shift+Ctrl+A", "command/tile/exposeApp");
    bind(&mut v, "Ctrl+Down", "command/tile/exposeApp");
    bind(&mut v, "Shift+Ctrl+Super+Left", "command/app/moveToBack");
    bind(&mut v, "Shift+Ctrl+Super+Right", "command/app/moveToFront");
    assert(binding_views(v@) =~= default_key_bindings());
    v
}

fn profile3(v: &mut Vec<Profile>, name: &str, a: &str, b: &str, c: &str)
    ensures
        profile_views(final(v)@) == profile_views(old(v)@).push(
            (name@, CommandView::Multiple(seq![a@, b@, c@])),
        ),
{
    let p = Profile { name: String::from_str(name), command: CommandValue::Multiple(strings3(a, b, c)) };
    v.push(p);
    assert(profile_views(v@) =~= profile_views(old(v)@).push(
        (name@, CommandView::Multiple(seq![a@, b@, c@])),
    ));
}

fn default_profiles_vec() -> (res: Vec<Profile>)
    ensures
        profile_views(res@) == default_profiles(),
{
    let mut v: Vec<Profile> = Vec::new();
    profile3(
        &mut v,
        "Presentation",
        "command/changeBrightness/100",
        "command/changeDarkMode/light",
        "command/changeVolume/50",
    );
    profile3(
        &mut v,
        "Focus",
        "command/changeBrightness/75",
        "command/changeDarkMode/dark",
        "command/changeVolume/30",
    );
    profile3(
        &mut v,
        "Daylight",
        "command/changeBrightness/100",
        "command/changeDarkMode/light",
        "command/changeVolume/100",
    );
    assert(profile_views(v@) =~= default_profiles());
    v
}

impl Default for Preferences {
    fn default() -> (res: Self)
        ensures
            !res.show_individual_displays,
            res.min_brightness == 10,
            binding_views(res.key_bindings@) == default_key_bindings(),
            profile_views(res.profiles@) == default_profiles(),
            !res.night_mode_schedule.enabled,
            res.night_mode_schedule.night_start@ == "21:00"@,
            res.night_mode_schedule.night_brightness == 20,
            res.night_mode_schedule.day_start@ == "07:00"@,
            res.night_mode_schedule.day_brightness == 100,
            res.night_mode_schedule.night_commands@.len() == 0,
            res.night_mode_schedule.day_commands@.len() == 0,
            !res.show_contrast,
            !res.debug_logging,
            !res.launch_at_login,
            res.monitor_configs@.len() == 0,
            res.tiling.enabled,
            res.tiling.half_ratio == 50,
            res.tiling.third_ratio == 33,
            res.tiling.gap == 0,
            res.tiling.tile_snap_enabled,
            res.tiling.side_edge_trigger == 18,
            res.tiling.top_edge_trigger == 18,
            res.tiling.corner_trigger == 30,
            res.tiling.expose_enabled,
            res.tiling.expose_columns == 3,
            res.tiling.expose_rows == 3,
            res.tiling.expose_layout_strategy@ == "fill"@,
            res.tiling.expose_min_width == 400,
            res.tiling.expose_min_height == 300,
            res.tiling.expose_max_windows == 0,
            res.layout_presets@.len() == 0,
            res.wallpaper.fit@ == "fill"@,
            res.wallpaper.current_wallpaper_path is None,
            res.wallpaper.per_monitor_wallpapers@.len() == 0,
            !res.wallpaper.slideshow_enabled,
            res.wallpaper.slideshow_folder is None,
            res.wallpaper.slideshow_interval_minutes == 30,
            res.wallpaper.slideshow_order@ == "forward"@,
            res.keyboard_backlight.enabled,
    {
        Preferences {
            show_individual_displays: false,
            min_brightness: 10,
            key_bindings: default_bindings_vec(),
            profiles: default_profiles_vec(),
            night_mode_schedule: NightModeSchedule::default(),
            show_contrast: false,
            debug_logging: false,
            launch_at_login: false,
            monitor_configs: Vec::new(),
            tiling: TilingPreferences::default(),
            layout_presets: Vec::new(),
            wallpaper: WallpaperPreferences::default(),
            keyboard_backlight: KeyboardBacklightPreferences::default(),
        }
    }
}

/// `r` is `sqrt(n)` rounded to the nearest integer, for `n >= 1`:
/// `(r - 1/2)^2 <= n < (r + 1/2)^2`, i.e. `r*r - r < n <= r*r + r`.
pub open spec fn is_rounded_sqrt(n: int, r: int) -> bool {
    r >= 0 && r * r - r < n <= r * r + r
}

/// `sqrt(n)` rounded to the nearest integer, for `n >= 1`.
pub fn rounded_sqrt(n: u32) -> (res: u32)
    requires
        n >= 1,
    ensures
        is_rounded_sqrt(n as int, res as int),
{
    let mut r: u64 = 1;
    assert(r * r - r < n as int);
    while r * r + r < n as u64
        invariant
            1 <= r <= 65536,
            r * r - r < n as int,
        decreases n as int - r,
    {
        assert(r * r + r < 0x1_0000_0000) by (nonlinear_arith)
            requires
                r * r + r < n as int,
                n <= u32::MAX,
        ;
        assert(r <= 65535) by (nonlinear_arith)
            requires
                r * r + r < 0x1_0000_0000,
                r >= 1,
        ;
        assert((r + 1) * (r + 1) - (r + 1) == r * r + r) by (nonlinear_arith);
        assert(r * r + r >= r) by (nonlinear_arith)
            requires
                r >= 1,
        ;
        r = r + 1;
    }
    r as u32
}

/// Migrates the legacy `expose_max_windows` (a squared window count) into
/// `expose_columns` / `expose_rows`: only when the legacy value is non-zero and
/// both grid fields are still at their defaults (3 x 3). Both then become the
/// rounded square root of the legacy value, and the legacy value is cleared.
/// Returns whether the preferences changed (and should be saved).
pub fn migrate_expose_grid_if_needed(prefs: &mut Preferences) -> (changed: bool)
    ensures
        changed == (old(prefs).tiling.expose_max_windows != 0 && old(prefs).tiling.expose_columns
            == 3 && old(prefs).tiling.expose_rows == 3),
        !changed ==> *final(prefs) == *old(prefs),
        changed ==> {
            &&& is_rounded_sqrt(
                old(prefs).tiling.expose_max_windows as int,
                final(prefs).tiling.expose_columns as int,
            )
            &&& final(prefs).tiling.expose_rows == final(prefs).tiling.expose_columns
            &&& final(prefs).tiling.expose_max_windows == 0
            &&& *final(prefs) == (Preferences {
                tiling: TilingPreferences {
                    expose_columns: final(prefs).tiling.expose_columns,
                    expose_rows: final(prefs).tiling.expose_rows,
                    expose_max_windows: 0,
                    ..old(prefs).tiling
                },
                ..*old(prefs)
            })
        },
{
    let old_value = prefs.tiling.expose_max_windows;
    if old_value == 0 {
        return false;
    }
    if prefs.tiling.expose_columns != 3 || prefs.tiling.expose_rows != 3 {
        return false;
    }
    let dim = rounded_sqrt(old_value);
    prefs.tiling.expose_columns = dim;
    prefs.tiling.expose_rows = dim;
    prefs.tiling.expose_max_windows = 0;
    true
}

/// Turns debug logging on or off (the tray's Debug submenu).
pub fn set_debug_logging(prefs: &mut Preferences, enabled: bool)
    ensures
        *final(prefs) == (Preferences { debug_logging: enabled, ..*old(prefs) }),
{
    prefs.debug_logging = enabled;
}

/// Turns all tiling features on or off (the tray's Tiling submenu).
pub fn set_tiling_enabled(prefs: &mut Preferences, enabled: bool)
    ensures
        *final(prefs) == (Preferences {
            tiling: TilingPreferences { enabled, ..old(prefs).tiling },
            ..*old(prefs)
        }),
{
    prefs.tiling.enabled = enabled;
}

/// Turns Exposé on or off (the tray's Exposé submenu).
pub fn set_expose_enabled(prefs: &mut Preferences, enabled: bool)
    ensures
        *final(prefs) == (Preferences {
            tiling: TilingPreferences { expose_enabled: enabled, ..old(prefs).tiling },
            ..*old(prefs)
        }),
{
    prefs.tiling.expose_enabled = enabled;
}

/// Name of the debug log file: development builds log to `debug-dev.log` so
/// local testing and the installed app never share a log.
pub fn debug_log_file_name(is_dev_build: bool) -> (res: String)
    ensures
        res@ == (if is_dev_build {
            "debug-dev.log"@
        } else {
            "debug.log"@
        }),
{
    if is_dev_build {
        String::from_str("debug-dev.log")
    } else {
        String::from_str("debug.log")
    }
}

/// An entry of the legacy `monitor-configs.json` registry.
pub struct OldMonitorConfig {
    pub id: String,
    pub name: String,
    pub sort_order: i32,
    pub disabled: bool,
}

/// The legacy registry is migrated only when its file exists and no
/// metadata has been recorded yet.
pub fn should_migrate_monitor_configs(old_file_exists: bool, configs_empty: bool) -> (res: bool)
    ensures
        res == (old_file_exists && configs_empty),
{
    old_file_exists && configs_empty
}

/// The metadata a legacy entry becomes: uid "{id}::unknown", model name
/// "unknown", its name as label, its sort order, visible, mode "auto".
pub open spec fn migrated_meta(o: OldMonitorConfig) -> MetaView {
    MetaView {
        uid: o.id@ + "::unknown"@,
        api_id: o.id@,
        api_name: "unknown"@,
        label: o.name@,
        sort_order: o.sort_order,
        hidden: false,
        brightness_mode: "auto"@,
    }
}

/// The metadata of the enabled legacy entries, in the given order (disabled
/// entries are dropped).
pub open spec fn migrated_metas(old: Seq<OldMonitorConfig>) -> Seq<MetaView>
    decreases old.len(),
{
    if old.len() == 0 {
        Seq::empty()
    } else {
        let p = migrated_metas(old.drop_last());
        if old.last().disabled {
            p
        } else {
            p.push(migrated_meta(old.last()))
        }
    }
}

/// Appends the enabled entries of the legacy registry (in the order given)
/// to the monitor metadata; nothing else changes.
pub fn migrate_monitor_configs(prefs: &mut Preferences, legacy: Vec<OldMonitorConfig>)
    ensures
        meta_views(final(prefs).monitor_configs@) == meta_views(old(prefs).monitor_configs@)
            + migrated_metas(legacy@),
        *final(prefs) == (Preferences {
            monitor_configs: final(prefs).monitor_configs,
            ..*old(prefs)
        }),
{
    let ghost start = meta_views(prefs.monitor_configs@);
    let mut i: usize = 0;
    assert(legacy@.subrange(0, 0) =~= Seq::<OldMonitorConfig>::empty());
    assert(start + migrated_metas(legacy@.subrange(0, 0)) =~= start);
    while i < legacy.len()
        invariant
            i <= legacy@.len(),
            meta_views(prefs.monitor_configs@) == start + migrated_metas(legacy@.subrange(0, i as int)),
            *prefs == (Preferences { monitor_configs: prefs.monitor_configs, ..*old(prefs) }),
        decreases legacy.len() - i,
    {
        proof {
            assert(legacy@.subrange(0, i + 1).drop_last() =~= legacy@.subrange(0, i as int));
            assert(legacy@.subrange(0, i + 1).last() == legacy@[i as int]);
        }
        let o = &legacy[i];
        if !o.disabled {
            let ghost before = meta_views(prefs.monitor_configs@);
            proof {
                reveal_strlit("::unknown");
                reveal_strlit("unknown");
            }
            let meta = MonitorMetadata {
                uid: String::from_str(o.id.as_str()).concat("::unknown"),
                api_id: copy_string(&o.id),
                api_name: String::from_str("unknown"),
                label: copy_string(&o.name),
                sort_order: o.sort_order,
                hidden: false,
                brightness_mode: default_brightness_mode(),
            };
            prefs.monitor_configs.push(meta);
            assert(meta_views(prefs.monitor_configs@) =~= before.push(migrated_meta(*o)));
        }
        i = i + 1;
    }
    assert(legacy@.subrange(0, i as int) =~= legacy@);
}

/// The debug log is trimmed once it grows past this many bytes.
pub const MAX_DEBUG_LOG_SIZE: u64 = 1048576;

/// Whether a debug log of `size` bytes is trimmed before the next line.
pub fn debug_log_needs_trim(size: u64) -> (res: bool)
    ensures
        res == (size > MAX_DEBUG_LOG_SIZE),
{
    size > MAX_DEBUG_LOG_SIZE
}

/// Where a trimmed debug log starts: it keeps the last 80% of its bytes,
/// moved forward past the next line break so no line is split (the cut
/// itself when no line break follows).
pub open spec fn debug_trim_cut(b: Seq<u8>) -> int {
    let trim_at: int = b.len() - b.len() * 80 / 100;
    let rest = b.subrange(trim_at, b.len() as int);
    if rest.contains(0x0au8) {
        trim_at + first_byte_index(rest, 0x0au8) + 1
    } else {
        trim_at
    }
}

/// Index of the first `x` in `s` (or its length).
pub open spec fn first_byte_index(s: Seq<u8>, x: u8) -> int
    decreases s.len(),
{
    if s.len() == 0 || s[0] == x {
        0
    } else {
        1 + first_byte_index(s.drop_first(), x)
    }
}

proof fn lemma_first_byte_index(s: Seq<u8>, x: u8, k: int)
    requires
        0 <= k <= s.len(),
        forall|m: int| 0 <= m < k ==> s[m] != x,
        k < s.len() ==> s[k] == x,
    ensures
        first_byte_index(s, x) == k,
    decreases s.len(),
{
    if k > 0 {
        assert forall|m: int| 0 <= m < k - 1 implies s.drop_first()[m] != x by {
            assert(s.drop_first()[m] == s[m + 1]);
        }
        if k - 1 < s.len() - 1 {
            assert(s.drop_first()[k - 1] == s[k]);
        }
        assert(s[0] != x);
        lemma_first_byte_index(s.drop_first(), x, k - 1);
    }
}

/// Finds where a trimmed debug log starts. The cut must fall on a
/// character boundary, as slicing the text there requires.
pub fn debug_log_trim_start(content: &[u8]) -> (res: usize)
    requires
        crate::crash_log::is_char_boundary(
            content@,
            content@.len() - content@.len() * 80 / 100,
        ),
    ensures
        res == debug_trim_cut(content@),
        res <= content@.len(),
{
    let len = content.len();
    assert(len * 80 / 100 <= len) by (nonlinear_arith)
        requires
            len >= 0,
    ;
    let keep: usize = ((len as u128) * 80 / 100) as usize;
    let trim_at = len - keep;
    let mut k = trim_at;
    while k < len && content[k] != 0x0au8
        invariant
            trim_at <= k <= len,
            len == content@.len(),
            forall|m: int| trim_at <= m < k ==> content@[m] != 0x0au8,
        decreases len - k,
    {
        k = k + 1;
    }
    let ghost rest = content@.subrange(trim_at as int, len as int);
    proof {
        assert forall|m: int| 0 <= m < k - trim_at implies rest[m] != 0x0au8 by {
            assert(rest[m] == content@[trim_at + m]);
        }
        if k < len {
            assert(rest[k - trim_at] == content@[k as int]);
        }
        lemma_first_byte_index(rest, 0x0au8, k - trim_at);
    }
    if k < len {
        assert(rest.contains(0x0au8)) by {
            assert(rest[k - trim_at] == 0x0au8);
        }
        k + 1
    } else {
        assert(!rest.contains(0x0au8)) by {
            if rest.contains(0x0au8) {
                let m = choose|m: int| 0 <= m < rest.len() && rest[m] == 0x0au8;
                assert(rest[m] == content@[trim_at + m]);
            }
        }
        trim_at
    }
}

/// A debug log line: the timestamp in brackets, the message, a line break.
pub fn debug_log_line(timestamp: &str, message: &str) -> (res: String)
    ensures
        res@ == "["@ + timestamp@ + "] "@ + message@ + "\n"@,
{
    String::from_str("[").concat(timestamp).concat("] ").concat(message).concat("\n")
}

/// The architecture label the About panel shows: arm64 for aarch64, x64
/// for x86_64, any other name as it is.
pub open spec fn arch_label_of(arch: Seq<char>) -> Seq<char> {
    if arch == "aarch64"@ {
        "arm64"@
    } else if arch == "x86_64"@ {
        "x64"@
    } else {
        arch
    }
}

/// The architecture label of a target architecture name.
pub fn arch_label(arch: &str) -> (res: String)
    ensures
        res@ == arch_label_of(arch@),
{
    if crate::text::str_eq(arch, "aarch64") {
        String::from_str("arm64")
    } else if crate::text::str_eq(arch, "x86_64") {
        String::from_str("x64")
    } else {
        String::from_str(arch)
    }
}

/// The operating-system label the About panel shows.
pub open spec fn os_label_of(os: Seq<char>) -> Seq<char> {
    if os == "macos"@ {
        "macOS"@
    } else if os == "windows"@ {
        "Windows"@
    } else if os == "linux"@ {
        "Linux"@
    } else {
        os
    }
}

/// The operating-system label of a target OS name.
pub fn os_label(os: &str) -> (res: String)
    ensures
        res@ == os_label_of(os@),
{
    if crate::text::str_eq(os, "macos") {
        String::from_str("macOS")
    } else if crate::text::str_eq(os, "windows") {
        String::from_str("Windows")
    } else if crate::text::str_eq(os, "linux") {
        String::from_str("Linux")
    } else {
        String::from_str(os)
    }
}

/// The version string with its architecture, e.g. "5.0.0 (arm64)".
pub fn app_version_text(version: &str, arch: &str) -> (res: String)
    ensures
        res@ == version@ + " ("@ + arch_label_of(arch@) + ")"@,
{
    let a = arch_label(arch);
    String::from_str(version).concat(" (").concat(a.as_str()).concat(")")
}

/// The About panel's entries (key, value): version, engine, architecture,
/// OS, build date and home page.
pub fn about_entries(version: &str, arch: &str, os: &str, build_date: &str) -> (res: Vec<(String, String)>)
    ensures
        res@.map_values(|e: (String, String)| (e.0@, e.1@)) == seq![
            ("version"@, version@),
            ("engine"@, "Tauri + Rust (in-process)"@),
            ("arch"@, arch_label_of(arch@)),
            ("os"@, os_label_of(os@)),
            ("buildDate"@, build_date@),
            ("homepage"@, "https://github.com/synle/display-dj"@),
        ],
{
    let mut v: Vec<(String, String)> = Vec::new();
    v.push((String::from_str("version"), String::from_str(version)));
    v.push((String::from_str("engine"), String::from_str("Tauri + Rust (in-process)")));
    v.push((String::from_str("arch"), arch_label(arch)));
    v.push((String::from_str("os"), os_label(os)));
    v.push((String::from_str("buildDate"), String::from_str(build_date)));
    v.push((String::from_str("homepage"), String::from_str("https://github.com/synle/display-dj")));
    assert(v@.map_values(|e: (String, String)| (e.0@, e.1@)) =~= seq![
        ("version"@, version@),
        ("engine"@, "Tauri + Rust (in-process)"@),
        ("arch"@, arch_label_of(arch@)),
        ("os"@, os_label_of(os@)),
        ("buildDate"@, build_date@),
        ("homepage"@, "https://github.com/synle/display-dj"@),
    ]);
    v
}

/// The launch-at-login state to push to the OS after a save: the new one
/// when it changed, none when it did not (the OS call can hang, so it is
/// skipped when nothing changed).
pub fn autostart_change(old_value: bool, new_value: bool) -> (res: Option<bool>)
    ensures
        res == if old_value != new_value {
            Some(new_value)
        } else {
            None::<bool>
        },
{
    if old_value != new_value {
        Some(new_value)
    } else {
        None
    }
}

} // verus!
