//! Guessing a program's category from its display name and publisher.
use vstd::prelude::*;

use crate::programs::{opt_view, InstalledProgram};
use crate::text::{
    alnum_only, ascii_lower, chars_of, contains_chars, contains_spec, keep_ascii_alnum,
    to_ascii_lowercase, trim, trim_spec,
};

verus! {

/// A needle matches when its ASCII letters and digits are not empty and
/// occur in `hay`.
pub open spec fn needle_matches(hay: Seq<char>, needle: Seq<char>) -> bool {
    alnum_only(needle).len() > 0 && contains_spec(hay, alnum_only(needle))
}

pub open spec fn matches_any_spec(hay: Seq<char>, needles: Seq<Seq<char>>) -> bool {
    exists|i: int| 0 <= i < needles.len() && needle_matches(hay, #[trigger] needles[i])
}

pub open spec fn str_views(v: Seq<&str>) -> Seq<Seq<char>> {
    v.map_values(|s: &str| s@)
}

/// Whether one of `needles`, reduced to its ASCII letters and digits, occurs
/// in `hay`.
pub fn matches_any(hay: &str, needles: &[&str]) -> (r: bool)
    ensures
        r == matches_any_spec(hay@, str_views(needles@)),
{
    let hv = chars_of(hay);
    let ghost nv = str_views(needles@);
    let mut i: usize = 0;
    while i < needles.len()
        invariant
            hv@ == hay@,
            i <= needles@.len(),
            nv == str_views(needles@),
            forall|j: int| 0 <= j < i ==> !needle_matches(hay@, #[trigger] nv[j]),
        decreases needles@.len() - i,
    {
        let n: &str = needles[i];
        assert(n@ == nv[i as int]);
        let needle = chars_of(keep_ascii_alnum(n).as_str());
        if needle.len() > 0 && contains_chars(&hv, &needle) {
            return true;
        }
        i = i + 1;
    }
    false
}

pub open spec fn browser_needles() -> Seq<Seq<char>> {
    seq!["chrome"@, "firefox"@, "edge"@, "brave"@, "opera"@, "torbrowser"@, "vivaldi"@, "waterfox"@]
}

pub open spec fn compression_needles() -> Seq<Seq<char>> {
    seq!["7zip"@, "winrar"@, "peazip"@, "everything"@, "treesize"@, "bandizip"@]
}

pub open spec fn media_needles() -> Seq<Seq<char>> {
    seq![
        "vlc"@,
        "spotify"@,
        "itunes"@,
        "audacity"@,
        "obsstudio"@,
        "obs studio"@,
        "handbrake"@,
        "mpchc"@,
        "foobar2000"@,
        "kodi"@,
        "plex"@,
        "aimp"@,
        "potplayer"@,
    ]
}

pub open spec fn imaging_needles() -> Seq<Seq<char>> {
    seq![
        "paintdotnet"@,
        "paintnet"@,
        "gimp"@,
        "inkscape"@,
        "sharex"@,
        "lightshot"@,
        "greenshot"@,
        "irfanview"@,
        "xnview"@,
        "blender"@,
    ]
}

pub open spec fn document_needles() -> Seq<Seq<char>> {
    seq![
        "acrobat"@,
        "adobereader"@,
        "sumatrapdf"@,
        "libreoffice"@,
        "openoffice"@,
        "onlyoffice"@,
        "foxit"@,
        "cutepdf"@,
    ]
}

pub open spec fn communication_needles() -> Seq<Seq<char>> {
    seq![
        "discord"@,
        "slack"@,
        "zoom"@,
        "teams"@,
        "telegram"@,
        "whatsapp"@,
        "signal"@,
        "skype"@,
        "thunderbird"@,
        "mailspring"@,
    ]
}

pub open spec fn gaming_needles() -> Seq<Seq<char>> {
    seq!["steam"@, "epicgames"@, "goggalaxy"@, "origin"@, "eaapp"@, "ubisoft"@, "battle"@, "minecraft"@]
}

pub open spec fn development_needles() -> Seq<Seq<char>> {
    seq![
        "git"@,
        "github"@,
        "vscode"@,
        "visualstudiocode"@,
        "visual studio code"@,
        "notepadplusplus"@,
        "sublime"@,
        "jetbrains"@,
        "nodejs"@,
        "python"@,
        "rustup"@,
        "golang"@,
        "docker"@,
        "postman"@,
        "insomnia"@,
        "windowsterminal"@,
        "windows terminal"@,
        "powershell"@,
        "pwsh"@,
        "powertoys"@,
        "wsl"@,
        "ohmyposh"@,
        "winscp"@,
        "putty"@,
        "filezilla"@,
        "wireshark"@,
        "sysinternals"@,
        "cmake"@,
        "ninja"@,
        "yarn"@,
        "pnpm"@,
        "neovim"@,
        "vim"@,
        "emacs"@,
        "androidstudio"@,
        "intellij"@,
        "pycharm"@,
        "webstorm"@,
        "cursor"@,
    ]
}

pub open spec fn security_needles() -> Seq<Seq<char>> {
    seq![
        "malwarebytes"@,
        "bitwarden"@,
        "1password"@,
        "keepass"@,
        "lastpass"@,
        "nordvpn"@,
        "expressvpn"@,
        "authy"@,
        "verity"@,
        "clamav"@,
    ]
}

pub open spec fn cloud_needles() -> Seq<Seq<char>> {
    seq![
        "dropbox"@,
        "googledrive"@,
        "onedrive"@,
        "notion"@,
        "obsidian"@,
        "onenote"@,
        "evernote"@,
        "megasync"@,
        "nextcloud"@,
    ]
}

pub open spec fn runtime_needles() -> Seq<Seq<char>> {
    seq!["dotnet"@, "temurin"@, "openjdk"@, "jre"@, "jdk"@, "vcredist"@, "visualc"@, "directx"@]
}

pub open spec fn utility_needles() -> Seq<Seq<char>> {
    seq![
        "cpu-z"@,
        "cpuz"@,
        "hwmonitor"@,
        "crystaldisk"@,
        "qbittorrent"@,
        "etcher"@,
        "rufus"@,
        "ccleaner"@,
        "revo"@,
        "speccy"@,
        "hwinfo"@,
    ]
}

/// The text that categories are matched against: the display name and the
/// publisher, in ASCII lowercase, reduced to ASCII letters and digits.
pub open spec fn category_key(name: Seq<char>, publisher: Option<Seq<char>>) -> Seq<char> {
    let p = match publisher {
        Some(p) => p,
        None => Seq::empty(),
    };
    alnum_only(ascii_lower(name) + ascii_lower(p))
}

/// The first category, in a fixed order, one of whose needles occurs in
/// `key`; `Other` when none does.
pub open spec fn category_for_key(key: Seq<char>) -> Seq<char> {
    if matches_any_spec(key, browser_needles()) {
        "Browsers"@
    } else if matches_any_spec(key, compression_needles()) {
        "Compression"@
    } else if matches_any_spec(key, media_needles()) {
        "Media"@
    } else if matches_any_spec(key, imaging_needles()) {
        "Imaging"@
    } else if matches_any_spec(key, document_needles()) {
        "Documents"@
    } else if matches_any_spec(key, communication_needles()) {
        "Communication"@
    } else if matches_any_spec(key, gaming_needles()) {
        "Gaming"@
    } else if matches_any_spec(key, development_needles()) {
        "Development"@
    } else if matches_any_spec(key, security_needles()) {
        "Security"@
    } else if matches_any_spec(key, cloud_needles()) {
        "Cloud"@
    } else if matches_any_spec(key, runtime_needles()) {
        "Runtimes"@
    } else if matches_any_spec(key, utility_needles()) {
        "Utilities"@
    } else {
        "Other"@
    }
}

/// The category guessed for a program.
pub open spec fn infer_category_spec(p: InstalledProgram) -> Seq<char> {
    category_for_key(category_key(p.display_name@, opt_view(p.publisher)))
}

/// Guesses the category of `program` from its display name and publisher.
pub fn infer_category(program: &InstalledProgram) -> (r: &'static str)
    ensures
        r@ == infer_category_spec(*program),
{
    let name = to_ascii_lowercase(program.display_name.as_str());
    let publisher = match &program.publisher {
        Some(p) => to_ascii_lowercase(p.as_str()),
        None => to_ascii_lowercase(""),
    };
    proof {
        reveal_strlit("");
    }
    let joined = name.concat(publisher.as_str());
    let compact_s = keep_ascii_alnum(joined.as_str());
    let compact = compact_s.as_str();
    assert(compact@ == category_key(program.display_name@, opt_view(program.publisher)));
    let browsers = [
        "chrome",
        "firefox",
        "edge",
        "brave",
        "opera",
        "torbrowser",
        "vivaldi",
        "waterfox",
    ];
    assert(str_views(browsers@) == browser_needles());
    if matches_any(compact, &browsers) {
        return "Browsers";
    }
    let compression = ["7zip", "winrar", "peazip", "everything", "treesize", "bandizip"];
    assert(str_views(compression@) == compression_needles());
    if matches_any(compact, &compression) {
        return "Compression";
    }
    let media = [
        "vlc",
        "spotify",
        "itunes",
        "audacity",
        "obsstudio",
        "obs studio",
        "handbrake",
        "mpchc",
        "foobar2000",
        "kodi",
        "plex",
        "aimp",
        "potplayer",
    ];
    assert(str_views(media@) == media_needles());
    if matches_any(compact, &media) {
        return "Media";
    }
    let imaging = [
        "paintdotnet",
        "paintnet",
        "gimp",
        "inkscape",
        "sharex",
        "lightshot",
        "greenshot",
        "irfanview",
        "xnview",
        "blender",
    ];
    assert(str_views(imaging@) == imaging_needles());
    if matches_any(compact, &imaging) {
        return "Imaging";
    }
    let documents = [
        "acrobat",
        "adobereader",
        "sumatrapdf",
        "libreoffice",
        "openoffice",
        "onlyoffice",
        "foxit",
        "cutepdf",
    ];
    assert(str_views(documents@) == document_needles());
    if matches_any(compact, &documents) {
        return "Documents";
    }
    let communication = [
        "discord",
        "slack",
        "zoom",
        "teams",
        "telegram",
        "whatsapp",
        "signal",
        "skype",
        "thunderbird",
        "mailspring",
    ];
    assert(str_views(communication@) == communication_needles());
    if matches_any(compact, &communication) {
        return "Communication";
    }
    let gaming = [
        "steam",
        "epicgames",
        "goggalaxy",
        "origin",
        "eaapp",
        "ubisoft",
        "battle",
        "minecraft",
    ];
    assert(str_views(gaming@) == gaming_needles());
    if matches_any(compact, &gaming) {
        return "Gaming";
    }
    let development = [
        "git",
        "github",
        "vscode",
        "visualstudiocode",
        "visual studio code",
        "notepadplusplus",
        "sublime",
        "jetbrains",
        "nodejs",
        "python",
        "rustup",
        "golang",
        "docker",
        "postman",
        "insomnia",
        "windowsterminal",
        "windows terminal",
        "powershell",
        "pwsh",
        "powertoys",
        "wsl",
        "ohmyposh",
        "winscp",
        "putty",
        "filezilla",
        "wireshark",
        "sysinternals",
        "cmake",
        "ninja",
        "yarn",
        "pnpm",
        "neovim",
        "vim",
        "emacs",
        "androidstudio",
        "intellij",
        "pycharm",
        "webstorm",
        "cursor",
    ];
    assert(str_views(development@) == development_needles());
    if matches_any(compact, &development) {
        return "Development";
    }
    let security = [
        "malwarebytes",
        "bitwarden",
        "1password",
        "keepass",
        "lastpass",
        "nordvpn",
        "expressvpn",
        "authy",
        "verity",
        "clamav",
    ];
    assert(str_views(security@) == security_needles());
    if matches_any(compact, &security) {
        return "Security";
    }
    let cloud = [
        "dropbox",
        "googledrive",
        "onedrive",
        "notion",
        "obsidian",
        "onenote",
        "evernote",
        "megasync",
        "nextcloud",
    ];
    assert(str_views(cloud@) == cloud_needles());
    if matches_any(compact, &cloud) {
        return "Cloud";
    }
    let runtimes = ["dotnet", "temurin", "openjdk", "jre", "jdk", "vcredist", "visualc", "directx"];
    assert(str_views(runtimes@) == runtime_needles());
    if matches_any(compact, &runtimes) {
        return "Runtimes";
    }
    let utilities = [
        "cpu-z",
        "cpuz",
        "hwmonitor",
        "crystaldisk",
        "qbittorrent",
        "etcher",
        "rufus",
        "ccleaner",
        "revo",
        "speccy",
        "hwinfo",
    ];
    assert(str_views(utilities@) == utility_needles());
    if matches_any(compact, &utilities) {
        return "Utilities";
    }
    "Other"
}

/// The categories a program can be given.
pub open spec fn category_names() -> Seq<Seq<char>> {
    seq![
        "Browsers"@,
        "Compression"@,
        "Media"@,
        "Imaging"@,
        "Documents"@,
        "Communication"@,
        "Gaming"@,
        "Development"@,
        "Security"@,
        "Cloud"@,
        "Runtimes"@,
        "Utilities"@,
        "Other"@,
    ]
}

/// Every program gets one of the known categories, `Other` included.
pub proof fn law_category_is_known(p: InstalledProgram)
    ensures
        category_names().contains(infer_category_spec(p)),
{
    let c = infer_category_spec(p);
    let names = category_names();
    let k = category_key(p.display_name@, opt_view(p.publisher));
    if matches_any_spec(k, browser_needles()) {
        assert(names[0] == c);
    } else if matches_any_spec(k, compression_needles()) {
        assert(names[1] == c);
    } else if matches_any_spec(k, media_needles()) {
        assert(names[2] == c);
    } else if matches_any_spec(k, imaging_needles()) {
        assert(names[3] == c);
    } else if matches_any_spec(k, document_needles()) {
        assert(names[4] == c);
    } else if matches_any_spec(k, communication_needles()) {
        assert(names[5] == c);
    } else if matches_any_spec(k, gaming_needles()) {
        assert(names[6] == c);
    } else if matches_any_spec(k, development_needles()) {
        assert(names[7] == c);
    } else if matches_any_spec(k, security_needles()) {
        assert(names[8] == c);
    } else if matches_any_spec(k, cloud_needles()) {
        assert(names[9] == c);
    } else if matches_any_spec(k, runtime_needles()) {
        assert(names[10] == c);
    } else if matches_any_spec(k, utility_needles()) {
        assert(names[11] == c);
    } else {
        assert(names[12] == c);
    }
}

/// A program has a category when its category is present and not blank.
pub open spec fn has_category(p: InstalledProgram) -> bool {
    match p.category {
        Some(c) => trim_spec(c@).len() > 0,
        None => false,
    }
}

/// `b` is `a` with only its category possibly changed.
pub open spec fn same_except_category(a: InstalledProgram, b: InstalledProgram) -> bool {
    b == InstalledProgram { category: b.category, ..a }
}

/// What `enrich_categories` makes of one program: unchanged when it has a
/// category, else given the guessed one.
pub open spec fn enriched(old_p: InstalledProgram, new_p: InstalledProgram) -> bool {
    if has_category(old_p) {
        new_p == old_p
    } else {
        same_except_category(old_p, new_p) && opt_view(new_p.category) == Some(
            infer_category_spec(old_p),
        )
    }
}

/// Fills missing (or blank) categories from display-name heuristics.
pub fn enrich_categories(programs: &mut [InstalledProgram])
    ensures
        final(programs)@.len() == old(programs)@.len(),
        forall|i: int|
            0 <= i < old(programs)@.len() ==> enriched(
                #[trigger] old(programs)@[i],
                final(programs)@[i],
            ),
{
    let ghost before = programs@;
    let mut i: usize = 0;
    while i < programs.len()
        invariant
            i <= programs@.len(),
            programs@.len() == before.len(),
            before == old(programs)@,
            forall|j: int| 0 <= j < i ==> enriched(#[trigger] before[j], programs@[j]),
            forall|j: int| i <= j < programs@.len() ==> programs@[j] == before[j],
        decreases programs@.len() - i,
    {
        let keep = match &programs[i].category {
            Some(c) => trim(c.as_str()).unicode_len() > 0,
            None => false,
        };
        if !keep {
            let cat = infer_category(&programs[i]);
            programs[i].category = Some(String::from_str(cat));
        }
        i = i + 1;
    }
}

/// A list of needles matches a key exactly when one needle, reduced to its
/// ASCII letters and digits, is not empty and occurs in the key, however
/// short it is.
pub proof fn law_needle_match_is_occurrence(hay: Seq<char>, needles: Seq<Seq<char>>)
    ensures
        matches_any_spec(hay, needles) <==> exists|i: int|
            0 <= i < needles.len() && alnum_only(#[trigger] needles[i]).len() > 0 && contains_spec(
                hay,
                alnum_only(needles[i]),
            ),
{
    if exists|i: int|
        0 <= i < needles.len() && alnum_only(#[trigger] needles[i]).len() > 0 && contains_spec(
            hay,
            alnum_only(needles[i]),
        ) {
        let i = choose|i: int|
            0 <= i < needles.len() && alnum_only(#[trigger] needles[i]).len() > 0 && contains_spec(
                hay,
                alnum_only(needles[i]),
            );
        assert(needle_matches(hay, needles[i]));
    }
}

/// A key in which one of the media needles occurs, and no browser or
/// compression needle, is categorised `Media`.
pub proof fn law_media_needles_give_media(key: Seq<char>, i: int)
    requires
        0 <= i < media_needles().len(),
        alnum_only(media_needles()[i]).len() > 0,
        contains_spec(key, alnum_only(media_needles()[i])),
        !matches_any_spec(key, browser_needles()),
        !matches_any_spec(key, compression_needles()),
    ensures
        category_for_key(key) == "Media"@,
{
    law_needle_match_is_occurrence(key, media_needles());
}

} // verus!
