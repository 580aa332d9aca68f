//! The picker's arguments and the configuration filling the ones not given.
use vstd::prelude::*;
use crate::config::{Config, ShellPositionConfig};
use crate::text::owned;

verus! {

/// Where on the monitor the picker stands.
#[derive(Debug, Clone, Copy, PartialEq, Eq, Structural)]
pub enum ShellPosition {
    Top,
    Bottom,
    Center,
    Left,
    Right,
}

/// How the picker's cards run: across (along a top or bottom edge) or down (along a side).
#[derive(Debug, Clone, Copy, PartialEq, Eq, Structural)]
pub enum ShellLayout {
    Horizontal,
    Vertical,
}

/// The position a configured position names.
pub open spec fn position_of(p: ShellPositionConfig) -> ShellPosition {
    match p {
        ShellPositionConfig::Bottom => ShellPosition::Bottom,
        ShellPositionConfig::Center => ShellPosition::Center,
    }
}

pub fn position_from_config(p: ShellPositionConfig) -> (r: ShellPosition)
    ensures
        r == position_of(p),
{
    match p {
        ShellPositionConfig::Bottom => ShellPosition::Bottom,
        ShellPositionConfig::Center => ShellPosition::Center,
    }
}

/// The picker's arguments: the folder to browse, the monitor to set, where and how tall the
/// overlay is, and whether browsing shows each wallpaper on the desktop.
#[derive(Debug)]
pub struct ShellArgs {
    pub folder: Option<String>,
    pub monitor: Option<String>,
    pub position: Option<ShellPosition>,
    pub width: i32,
    pub height: Option<i32>,
    pub no_live_preview: bool,
    pub debug_window: bool,
}

impl ShellArgs {
    /// The arguments with the configuration filling those not given; a configuration that
    /// turns live preview off turns it off.
    pub fn apply_config_defaults(self, config: &Config) -> (r: Self)
        ensures
            r.folder == self.folder,
            r.width == self.width,
            r.debug_window == self.debug_window,
            r.monitor matches Some(m) && m@ == match self.monitor {
                Some(x) => x@,
                None => config.shell.monitor@,
            },
            r.position == Some(
                match self.position {
                    Some(p) => p,
                    None => position_of(config.shell.position),
                },
            ),
            r.height == Some(
                match self.height {
                    Some(h) => h,
                    None => config.shell.height,
                },
            ),
            r.no_live_preview == (self.no_live_preview || !config.shell.live_preview),
    {
        let mut a = self;
        if a.monitor.is_none() {
            a.monitor = Some(config.shell.monitor.clone());
        }
        if a.position.is_none() {
            a.position = Some(position_from_config(config.shell.position));
        }
        if a.height.is_none() {
            a.height = Some(config.shell.height);
        }
        if !config.shell.live_preview {
            a.no_live_preview = true;
        }
        a
    }

    /// The monitor to set, `all` when none is given.
    pub fn monitor(&self) -> (r: &str)
        ensures
            r@ == match self.monitor {
                Some(m) => m@,
                None => "all"@,
            },
    {
        match &self.monitor {
            Some(m) => m.as_str(),
            None => "all",
        }
    }

    pub fn position(&self) -> (r: ShellPosition)
        ensures
            r == match self.position {
                Some(p) => p,
                None => ShellPosition::Bottom,
            },
    {
        match self.position {
            Some(p) => p,
            None => ShellPosition::Bottom,
        }
    }

    pub fn height(&self) -> (r: i32)
        ensures
            r == match self.height {
                Some(h) => h,
                None => 340,
            },
    {
        match self.height {
            Some(h) => h,
            None => 340,
        }
    }
}

} // verus!
