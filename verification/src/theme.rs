//! The colour themes of the interface and the `/theme` command.

use vstd::prelude::*;
use crate::text::{trim, trim_str, to_lowercase, unicode_lowercase};
use crate::words::{words, split_whitespace};
use crate::task_store::strings_view;
use crate::service_commands::is_text;

verus! {

/// A colour as red, green and blue.
#[derive(Debug, Clone, Copy, PartialEq, Eq, Structural)]
pub struct Rgb {
    pub r: u8,
    pub g: u8,
    pub b: u8,
}

pub open spec fn rgb(r: u8, g: u8, b: u8) -> Rgb {
    Rgb { r, g, b }
}

fn c(r: u8, g: u8, b: u8) -> (x: Rgb)
    ensures
        x == rgb(r, g, b),
{
    Rgb { r, g, b }
}

/// Which theme.
#[derive(Debug, Clone, Copy, PartialEq, Eq, Structural)]
pub enum ThemeName {
    GitHub,
    VsCode,
    Idea,
}

/// The colours of a theme.
#[derive(Debug, Clone, Copy, PartialEq, Eq, Structural)]
pub struct ThemePalette {
    pub theme: ThemeName,
    pub border: Rgb,
    pub accent: Rgb,
    pub accent_strong: Rgb,
    pub user: Rgb,
    pub assistant: Rgb,
    pub system: Rgb,
    pub text: Rgb,
    pub muted: Rgb,
    pub subtle: Rgb,
    pub warning: Rgb,
    pub selected_fg: Rgb,
    pub selected_bg: Rgb,
    pub panel_border: Rgb,
}

/// The name a theme is shown by.
pub open spec fn theme_title(t: ThemeName) -> Seq<char> {
    match t {
        ThemeName::GitHub => "GitHub"@,
        ThemeName::VsCode => "VSCode"@,
        ThemeName::Idea => "IntelliJ IDEA"@,
    }
}

impl ThemePalette {
    /// The shown name of the theme.
    pub fn name(&self) -> (r: &'static str)
        ensures
            r@ == theme_title(self.theme),
    {
        match self.theme {
            ThemeName::GitHub => "GitHub",
            ThemeName::VsCode => "VSCode",
            ThemeName::Idea => "IntelliJ IDEA",
        }
    }

    /// The light GitHub theme.
    pub fn github() -> (r: Self)
        ensures
            r.theme == ThemeName::GitHub,
            r.border == rgb(208, 215, 222) && r.accent == rgb(9, 105, 218) && r.accent_strong == rgb(31, 111, 235),
            r.user == rgb(9, 105, 218) && r.assistant == rgb(26, 127, 55) && r.system == rgb(101, 109, 118),
            r.text == rgb(36, 41, 47) && r.muted == rgb(87, 96, 106) && r.subtle == rgb(101, 109, 118),
            r.warning == rgb(154, 103, 0) && r.selected_fg == rgb(255, 255, 255) && r.selected_bg == rgb(9, 105, 218),
            r.panel_border == rgb(208, 215, 222),
    {
        ThemePalette {
            theme: ThemeName::GitHub,
            border: c(208, 215, 222),
            accent: c(9, 105, 218),
            accent_strong: c(31, 111, 235),
            user: c(9, 105, 218),
            assistant: c(26, 127, 55),
            system: c(101, 109, 118),
            text: c(36, 41, 47),
            muted: c(87, 96, 106),
            subtle: c(101, 109, 118),
            warning: c(154, 103, 0),
            selected_fg: c(255, 255, 255),
            selected_bg: c(9, 105, 218),
            panel_border: c(208, 215, 222),
        }
    }

    /// The dark VS Code theme.
    pub fn vscode() -> (r: Self)
        ensures
            r.theme == ThemeName::VsCode,
            r.border == rgb(60, 60, 60) && r.accent == rgb(55, 148, 255) && r.accent_strong == rgb(0, 122, 204),
            r.user == rgb(86, 156, 214) && r.assistant == rgb(78, 201, 176) && r.system == rgb(156, 220, 254),
            r.text == rgb(212, 212, 212) && r.muted == rgb(156, 163, 175) && r.subtle == rgb(106, 115, 125),
            r.warning == rgb(220, 220, 170) && r.selected_fg == rgb(255, 255, 255) && r.selected_bg == rgb(9, 71, 113),
            r.panel_border == rgb(51, 51, 51),
    {
        ThemePalette {
            theme: ThemeName::VsCode,
            border: c(60, 60, 60),
            accent: c(55, 148, 255),
            accent_strong: c(0, 122, 204),
            user: c(86, 156, 214),
            assistant: c(78, 201, 176),
            system: c(156, 220, 254),
            text: c(212, 212, 212),
            muted: c(156, 163, 175),
            subtle: c(106, 115, 125),
            warning: c(220, 220, 170),
            selected_fg: c(255, 255, 255),
            selected_bg: c(9, 71, 113),
            panel_border: c(51, 51, 51),
        }
    }

    /// The dark IntelliJ IDEA theme.
    pub fn idea() -> (r: Self)
        ensures
            r.theme == ThemeName::Idea,
            r.border == rgb(74, 74, 74) && r.accent == rgb(104, 151, 187) && r.accent_strong == rgb(79, 140, 201),
            r.user == rgb(104, 151, 187) && r.assistant == rgb(166, 194, 97) && r.system == rgb(128, 128, 128),
            r.text == rgb(169, 183, 198) && r.muted == rgb(128, 128, 128) && r.subtle == rgb(96, 99, 102),
            r.warning == rgb(255, 198, 109) && r.selected_fg == rgb(255, 255, 255) && r.selected_bg == rgb(33, 66, 131),
            r.panel_border == rgb(74, 74, 74),
    {
        ThemePalette {
            theme: ThemeName::Idea,
            border: c(74, 74, 74),
            accent: c(104, 151, 187),
            accent_strong: c(79, 140, 201),
            user: c(104, 151, 187),
            assistant: c(166, 194, 97),
            system: c(128, 128, 128),
            text: c(169, 183, 198),
            muted: c(128, 128, 128),
            subtle: c(96, 99, 102),
            warning: c(255, 198, 109),
            selected_fg: c(255, 255, 255),
            selected_bg: c(33, 66, 131),
            panel_border: c(74, 74, 74),
        }
    }

    /// The names `/theme` accepts, as listed to the user.
    pub fn names() -> (r: &'static str)
        ensures
            r@ == "github, vscode, idea"@,
    {
        "github, vscode, idea"
    }

    /// The theme a name stands for: compared trimmed and in lowercase,
    /// with a few spellings of each.
    pub fn from_name(name: &str) -> (r: Option<Self>)
        ensures
            match theme_of_name(name@) {
                Some(t) => r is Some && r->0.theme == t,
                None => r is None,
            },
    {
        let key = to_lowercase(trim_str(name).as_str());
        let k = key.as_str();
        if is_text(k, "github") {
            Some(Self::github())
        } else if is_text(k, "vscode") || is_text(k, "vs-code") || is_text(k, "vs_code") {
            Some(Self::vscode())
        } else if is_text(k, "intellij") || is_text(k, "idea") || is_text(k, "intellij-idea") || is_text(k, "intellij_idea") {
            Some(Self::idea())
        } else {
            None
        }
    }
}

/// The theme a name stands for.
pub open spec fn theme_of_name(name: Seq<char>) -> Option<ThemeName> {
    let k = unicode_lowercase(trim(name));
    if k == "github"@ {
        Some(ThemeName::GitHub)
    } else if k == "vscode"@ || k == "vs-code"@ || k == "vs_code"@ {
        Some(ThemeName::VsCode)
    } else if k == "intellij"@ || k == "idea"@ || k == "intellij-idea"@ || k == "intellij_idea"@ {
        Some(ThemeName::Idea)
    } else {
        None
    }
}

/// What `/theme` does: with a name it switches to that theme (reporting
/// it) or says the name is unknown; without one it shows the current
/// theme.  Returns the new palette, if any, and the message.
pub fn theme_command(current: &ThemePalette, line: &str) -> (r: (Option<ThemePalette>, String))
    ensures
        ({
            let w = words(line@);
            if w.len() <= 1 {
                r.0 is None && r.1@ == "当前主题: "@ + theme_title(current.theme) + "\n可用主题: "@ + "github, vscode, idea"@ + "\n用法: /theme <name>"@
            } else {
                match theme_of_name(w[1]) {
                    Some(t) => r.0 is Some && r.0->0.theme == t && r.1@ == "主题已切换为 "@ + theme_title(t) + "。"@,
                    None => r.0 is None && r.1@ == "未知主题: "@ + w[1] + "\n可用主题: "@ + "github, vscode, idea"@,
                }
            }
        }),
{
    let w = split_whitespace(line);
    if w.len() <= 1 {
        let mut s = String::from_str("当前主题: ");
        s.append(current.name());
        s.append("\n可用主题: ");
        s.append(ThemePalette::names());
        s.append("\n用法: /theme <name>");
        return (None, s);
    }
    proof {
        assert(strings_view(w@)[1] == w@[1]@);
    }
    match ThemePalette::from_name(w[1].as_str()) {
        Some(t) => {
            let mut s = String::from_str("主题已切换为 ");
            s.append(t.name());
            s.append("。");
            (Some(t), s)
        },
        None => {
            let mut s = String::from_str("未知主题: ");
            s.append(w[1].as_str());
            s.append("\n可用主题: ");
            s.append(ThemePalette::names());
            (None, s)
        },
    }
}

} // verus!
