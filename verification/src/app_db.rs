//! Application database: desktop entries, categories, pinned/recent tracking.
use vstd::prelude::*;
use std::collections::VecDeque;
use crate::app_query::{after_launch, record_in_recent};

verus! {

#[derive(Clone, Copy, Debug, PartialEq, Eq, Structural)]
pub enum AppCategory {
    All,
    Favorites,
    System,
    Development,
    Office,
    Graphics,
    Network,
    Multimedia,
    Games,
    Utilities,
}

/// One row of the built-in app table.
#[derive(Clone, Copy, Debug)]
pub struct AppEntry {
    pub name: &'static str,
    pub cat: AppCategory,
    pub exec_path: &'static str,
    pub desc: &'static str,
    pub icon: char,
}

/// Number of rows in the built-in app table.
pub const APP_COUNT: usize = 28;

/// Entry `i` of the built-in app table.
pub open spec fn db_entry(i: int) -> AppEntry {
    if i == 0 {
        AppEntry { name: "Terminal", desc: "System terminal emulator", cat: AppCategory::System, exec_path: "/bin/sash", icon: '\x1B' }
    } else if i == 1 {
        AppEntry { name: "File Manager", desc: "Browse files and folders", cat: AppCategory::System, exec_path: "/bin/skyfiles", icon: 'F' }
    } else if i == 2 {
        AppEntry { name: "SkyStore", desc: "Application marketplace", cat: AppCategory::Utilities, exec_path: "/bin/skystore", icon: 'S' }
    } else if i == 3 {
        AppEntry { name: "System Info", desc: "View system information", cat: AppCategory::System, exec_path: "/bin/uname", icon: 'i' }
    } else if i == 4 {
        AppEntry { name: "Calculator", desc: "Simple calculator", cat: AppCategory::Utilities, exec_path: "/bin/calculator", icon: '+' }
    } else if i == 5 {
        AppEntry { name: "SkyEdit", desc: "Text editor", cat: AppCategory::Development, exec_path: "/bin/skyedit", icon: 'E' }
    } else if i == 6 {
        AppEntry { name: "Settings", desc: "System settings", cat: AppCategory::System, exec_path: "/bin/skysettings", icon: '\u{2699}' }
    } else if i == 7 {
        AppEntry { name: "System Monitor", desc: "Monitor system resources", cat: AppCategory::System, exec_path: "/bin/sysmon", icon: 'M' }
    } else if i == 8 {
        AppEntry { name: "Calendar", desc: "Calendar application", cat: AppCategory::Office, exec_path: "/bin/calendar", icon: 'D' }
    } else if i == 9 {
        AppEntry { name: "Notes", desc: "Take notes", cat: AppCategory::Office, exec_path: "/bin/notes", icon: 'N' }
    } else if i == 10 {
        AppEntry { name: "Paint", desc: "Simple paint program", cat: AppCategory::Graphics, exec_path: "/bin/paint", icon: 'P' }
    } else if i == 11 {
        AppEntry { name: "Clock", desc: "Clock and alarms", cat: AppCategory::Office, exec_path: "/bin/clock", icon: 'T' }
    } else if i == 12 {
        AppEntry { name: "Tasks", desc: "Task management", cat: AppCategory::Office, exec_path: "/bin/tasks", icon: 'K' }
    } else if i == 13 {
        AppEntry { name: "Search", desc: "Search files and apps", cat: AppCategory::Utilities, exec_path: "/bin/search", icon: '?' }
    } else if i == 14 {
        AppEntry { name: "Archive Manager", desc: "Archive management", cat: AppCategory::Utilities, exec_path: "/bin/archive", icon: 'Z' }
    } else if i == 15 {
        AppEntry { name: "Image Viewer", desc: "View images", cat: AppCategory::Graphics, exec_path: "/bin/sargaview", icon: 'I' }
    } else if i == 16 {
        AppEntry { name: "About SARGA", desc: "About the operating system", cat: AppCategory::System, exec_path: "", icon: 'A' }
    } else if i == 17 {
        AppEntry { name: "Web Browser", desc: "Browse the web", cat: AppCategory::Network, exec_path: "/bin/skywebbrowser", icon: '@' }
    } else if i == 18 {
        AppEntry { name: "Mail", desc: "Email client", cat: AppCategory::Network, exec_path: "/bin/skymail", icon: 'M' }
    } else if i == 19 {
        AppEntry { name: "Media Player", desc: "Play audio and video", cat: AppCategory::Multimedia, exec_path: "/bin/skymedia", icon: '\u{266B}' }
    } else if i == 20 {
        AppEntry { name: "Audio Recorder", desc: "Record audio", cat: AppCategory::Multimedia, exec_path: "/bin/skyrecorder", icon: 'R' }
    } else if i == 21 {
        AppEntry { name: "Chess", desc: "Play chess", cat: AppCategory::Games, exec_path: "/bin/skychess", icon: '\u{265E}' }
    } else if i == 22 {
        AppEntry { name: "Sudoku", desc: "Number puzzle game", cat: AppCategory::Games, exec_path: "/bin/skysudoku", icon: '9' }
    } else if i == 23 {
        AppEntry { name: "Text Extractor", desc: "Extract text from files", cat: AppCategory::Utilities, exec_path: "/bin/skyextractor", icon: 'X' }
    } else if i == 24 {
        AppEntry { name: "Disk Usage", desc: "Analyze disk space usage", cat: AppCategory::Utilities, exec_path: "/bin/skydisk", icon: 'D' }
    } else if i == 25 {
        AppEntry { name: "Package Manager", desc: "Install and remove packages", cat: AppCategory::Utilities, exec_path: "/bin/skypkg", icon: '#' }
    } else if i == 26 {
        AppEntry { name: "Screenshot", desc: "Capture the screen", cat: AppCategory::Utilities, exec_path: "/bin/skyscreenshot", icon: 'C' }
    } else {
        AppEntry { name: "IPC Echo", desc: "Test the ADE IPC channel", cat: AppCategory::Utilities, exec_path: "/bin/ipc_echo", icon: '=' }
    }
}

/// Entry `i` of the built-in app table.
pub fn app_entry(i: usize) -> (e: AppEntry)
    requires
        i < 28,
    ensures
        e == db_entry(i as int),
{
    if i == 0 {
        AppEntry { name: "Terminal", desc: "System terminal emulator", cat: AppCategory::System, exec_path: "/bin/sash", icon: '\x1B' }
    } else if i == 1 {
        AppEntry { name: "File Manager", desc: "Browse files and folders", cat: AppCategory::System, exec_path: "/bin/skyfiles", icon: 'F' }
    } else if i == 2 {
        AppEntry { name: "SkyStore", desc: "Application marketplace", cat: AppCategory::Utilities, exec_path: "/bin/skystore", icon: 'S' }
    } else if i == 3 {
        AppEntry { name: "System Info", desc: "View system information", cat: AppCategory::System, exec_path: "/bin/uname", icon: 'i' }
    } else if i == 4 {
        AppEntry { name: "Calculator", desc: "Simple calculator", cat: AppCategory::Utilities, exec_path: "/bin/calculator", icon: '+' }
    } else if i == 5 {
        AppEntry { name: "SkyEdit", desc: "Text editor", cat: AppCategory::Development, exec_path: "/bin/skyedit", icon: 'E' }
    } else if i == 6 {
        AppEntry { name: "Settings", desc: "System settings", cat: AppCategory::System, exec_path: "/bin/skysettings", icon: '\u{2699}' }
    } else if i == 7 {
        AppEntry { name: "System Monitor", desc: "Monitor system resources", cat: AppCategory::System, exec_path: "/bin/sysmon", icon: 'M' }
    } else if i == 8 {
        AppEntry { name: "Calendar", desc: "Calendar application", cat: AppCategory::Office, exec_path: "/bin/calendar", icon: 'D' }
    } else if i == 9 {
        AppEntry { name: "Notes", desc: "Take notes", cat: AppCategory::Office, exec_path: "/bin/notes", icon: 'N' }
    } else if i == 10 {
        AppEntry { name: "Paint", desc: "Simple paint program", cat: AppCategory::Graphics, exec_path: "/bin/paint", icon: 'P' }
    } else if i == 11 {
        AppEntry { name: "Clock", desc: "Clock and alarms", cat: AppCategory::Office, exec_path: "/bin/clock", icon: 'T' }
    } else if i == 12 {
        AppEntry { name: "Tasks", desc: "Task management", cat: AppCategory::Office, exec_path: "/bin/tasks", icon: 'K' }
    } else if i == 13 {
        AppEntry { name: "Search", desc: "Search files and apps", cat: AppCategory::Utilities, exec_path: "/bin/search", icon: '?' }
    } else if i == 14 {
        AppEntry { name: "Archive Manager", desc: "Archive management", cat: AppCategory::Utilities, exec_path: "/bin/archive", icon: 'Z' }
    } else if i == 15 {
        AppEntry { name: "Image Viewer", desc: "View images", cat: AppCategory::Graphics, exec_path: "/bin/sargaview", icon: 'I' }
    } else if i == 16 {
        AppEntry { name: "About SARGA", desc: "About the operating system", cat: AppCategory::System, exec_path: "", icon: 'A' }
    } else if i == 17 {
        AppEntry { name: "Web Browser", desc: "Browse the web", cat: AppCategory::Network, exec_path: "/bin/skywebbrowser", icon: '@' }
    } else if i == 18 {
        AppEntry { name: "Mail", desc: "Email client", cat: AppCategory::Network, exec_path: "/bin/skymail", icon: 'M' }
    } else if i == 19 {
        AppEntry { name: "Media Player", desc: "Play audio and video", cat: AppCategory::Multimedia, exec_path: "/bin/skymedia", icon: '\u{266B}' }
    } else if i == 20 {
        AppEntry { name: "Audio Recorder", desc: "Record audio", cat: AppCategory::Multimedia, exec_path: "/bin/skyrecorder", icon: 'R' }
    } else if i == 21 {
        AppEntry { name: "Chess", desc: "Play chess", cat: AppCategory::Games, exec_path: "/bin/skychess", icon: '\u{265E}' }
    } else if i == 22 {
        AppEntry { name: "Sudoku", desc: "Number puzzle game", cat: AppCategory::Games, exec_path: "/bin/skysudoku", icon: '9' }
    } else if i == 23 {
        AppEntry { name: "Text Extractor", desc: "Extract text from files", cat: AppCategory::Utilities, exec_path: "/bin/skyextractor", icon: 'X' }
    } else if i == 24 {
        AppEntry { name: "Disk Usage", desc: "Analyze disk space usage", cat: AppCategory::Utilities, exec_path: "/bin/skydisk", icon: 'D' }
    } else if i == 25 {
        AppEntry { name: "Package Manager", desc: "Install and remove packages", cat: AppCategory::Utilities, exec_path: "/bin/skypkg", icon: '#' }
    } else if i == 26 {
        AppEntry { name: "Screenshot", desc: "Capture the screen", cat: AppCategory::Utilities, exec_path: "/bin/skyscreenshot", icon: 'C' }
    } else {
        AppEntry { name: "IPC Echo", desc: "Test the ADE IPC channel", cat: AppCategory::Utilities, exec_path: "/bin/ipc_echo", icon: '=' }
    }
}


/// The category tabs of the start menu, with their labels.
pub fn categories() -> (r: Vec<(&'static str, AppCategory)>)
    ensures
        r@ == seq![
            ("All", AppCategory::All),
            ("Favorites", AppCategory::Favorites),
            ("System", AppCategory::System),
            ("Development", AppCategory::Development),
            ("Office", AppCategory::Office),
            ("Graphics", AppCategory::Graphics),
            ("Network", AppCategory::Network),
            ("Multimedia", AppCategory::Multimedia),
            ("Games", AppCategory::Games),
            ("Utilities", AppCategory::Utilities),
        ],
{
    vec![
        ("All", AppCategory::All),
        ("Favorites", AppCategory::Favorites),
        ("System", AppCategory::System),
        ("Development", AppCategory::Development),
        ("Office", AppCategory::Office),
        ("Graphics", AppCategory::Graphics),
        ("Network", AppCategory::Network),
        ("Multimedia", AppCategory::Multimedia),
        ("Games", AppCategory::Games),
        ("Utilities", AppCategory::Utilities),
    ]
}

/// Pin flags per app and the recent-launch queue.
pub struct AppDb {
    pub pinned: Vec<bool>,
    pub recent: VecDeque<usize>,
}

impl AppDb {
    pub fn new(count: usize) -> (db: Self)
        ensures
            db.pinned@ == Seq::new(count as nat, |i: int| false),
            db.recent@ == Seq::<usize>::empty(),
    {
        let pinned = vec![false; count];
        assert(pinned@ =~= Seq::new(count as nat, |i: int| false));
        AppDb { pinned, recent: VecDeque::new() }
    }

    /// Move `idx` to the front of the recent queue (capped at 10).
    pub fn record_launch(&mut self, idx: usize)
        ensures
            final(self).recent@ == after_launch(old(self).recent@, idx),
            final(self).pinned@ == old(self).pinned@,
    {
        record_in_recent(&mut self.recent, idx);
    }

    /// Flip the pin flag of `idx`; an index past the end changes nothing.
    pub fn toggle_pin(&mut self, idx: usize)
        ensures
            idx < old(self).pinned@.len() ==> final(self).pinned@ == old(self).pinned@.update(
                idx as int,
                !old(self).pinned@[idx as int],
            ),
            idx >= old(self).pinned@.len() ==> final(self).pinned@ == old(self).pinned@,
            final(self).recent@ == old(self).recent@,
    {
        if idx < self.pinned.len() {
            let flipped = !self.pinned[idx];
            self.pinned.set(idx, flipped);
        }
    }
}

} // verus!
