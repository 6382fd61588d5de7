//! The games that the loader knows, and how their installations are found
//! in the library folders of a launcher.

use vstd::prelude::*;
use vstd::string::StringSliceAdditionalSpecFns;
use vstd::utf8::encode_utf8;

verus! {

/// A game that the loader can run in.
#[derive(Clone, Copy, Debug, Hash, PartialEq, Eq, Structural)]
pub enum Game {
    /// Horizon: Zero Dawn (HZD)
    HorizonZeroDawn,
    /// Horizon: Zero Dawn Remastered (HZDR)
    HorizonZeroDawnRemastered,
    /// Horizon: Forbidden West (HFW)
    HorizonForbiddenWest,
    /// DEATH STRANDING (DS)
    DeathStranding,
    /// DEATH STRANDING DIRECTOR'S CUT (DSDC)
    DeathStrandingDirectorsCut,
}

/// The identifier of an application in the Steam store.
#[derive(Debug, Clone, Copy, Eq, PartialEq, Hash, Structural)]
pub struct SteamId(pub u32);

pub const STEAM_ID_HZD: u32 = 1151640;

pub const STEAM_ID_HZDR: u32 = 2561580;

pub const STEAM_ID_HFW: u32 = 2420110;

pub const STEAM_ID_DS: u32 = 1190460;

pub const STEAM_ID_DSDC: u32 = 1850570;

/// A discovered game installation, keyed by launcher.
#[derive(Clone, Debug, Hash, PartialEq, Eq)]
pub enum Installation {
    Steam { game: Game, library_path: String, run_command: String },
}

/// An installation as plain values.
pub ghost struct InstallationView {
    pub game: Game,
    pub library_path: Seq<char>,
    pub run_command: Seq<char>,
}

impl View for Installation {
    type V = InstallationView;

    open spec fn view(&self) -> InstallationView {
        match self {
            Installation::Steam { game, library_path, run_command } => InstallationView {
                game: *game,
                library_path: library_path@,
                run_command: run_command@,
            },
        }
    }
}

/// One library folder of a Steam installation, as its `libraryfolders.vdf`
/// lists it. `apps` holds the installed applications by identifier, in the
/// order of the file.
#[derive(Debug, Clone)]
pub struct LibraryFolder {
    pub path: String,
    pub label: String,
    pub content_id: String,
    pub total_size: String,
    pub update_clean_bytes_tally: String,
    pub time_last_update_verified: String,
    pub apps: Vec<(String, String)>,
}

/// The library folders of a Steam installation, by their key and in the
/// order of the file.
#[derive(Debug, Clone)]
pub struct LibraryFolders {
    pub folders: Vec<(String, LibraryFolder)>,
}

/// The value of a decimal digit.
pub open spec fn digit_value(b: u8) -> Option<nat> {
    if 0x30 <= b <= 0x39 {
        Some((b - 0x30) as nat)
    } else {
        None
    }
}

/// The number that a run of decimal digits denotes; none where a byte is no
/// digit.
pub open spec fn digits_value(digits: Seq<u8>) -> Option<nat>
    decreases digits.len(),
{
    if digits.len() == 0 {
        Some(0)
    } else {
        match (digits_value(digits.drop_last()), digit_value(digits.last())) {
            (Some(front), Some(last)) => Some(front * 10 + last),
            _ => None,
        }
    }
}

/// The application identifier that a text denotes: decimal digits, at least
/// one, after an optional plus sign, with a value that fits 32 bits.
pub open spec fn steam_id_of(text: Seq<u8>) -> Option<u32> {
    let digits = if text.len() > 0 && text[0] == 0x2b {
        text.drop_first()
    } else {
        text
    };
    if digits.len() == 0 {
        None
    } else {
        match digits_value(digits) {
            Some(value) => if value <= u32::MAX {
                Some(value as u32)
            } else {
                None
            },
            None => None,
        }
    }
}

/// The game that is sold under an application identifier.
pub open spec fn game_of_id(id: u32) -> Option<Game> {
    if id == STEAM_ID_HZD {
        Some(Game::HorizonZeroDawn)
    } else if id == STEAM_ID_HZDR {
        Some(Game::HorizonZeroDawnRemastered)
    } else if id == STEAM_ID_HFW {
        Some(Game::HorizonForbiddenWest)
    } else if id == STEAM_ID_DS {
        Some(Game::DeathStranding)
    } else if id == STEAM_ID_DSDC {
        Some(Game::DeathStrandingDirectorsCut)
    } else {
        None
    }
}

/// The game that the executable of the running process belongs to. The two
/// editions of DEATH STRANDING share a file name; it counts as the later one.
pub open spec fn game_of_executable(file_name: Seq<char>) -> Option<Game> {
    if file_name == "HorizonZeroDawn.exe"@ {
        Some(Game::HorizonZeroDawn)
    } else if file_name == "HorizonZeroDawnRemastered.exe"@ {
        Some(Game::HorizonZeroDawnRemastered)
    } else if file_name == "HorizonForbiddenWest.exe"@ {
        Some(Game::HorizonForbiddenWest)
    } else if file_name == "ds.exe"@ {
        Some(Game::DeathStrandingDirectorsCut)
    } else {
        None
    }
}

proof fn digits_value_grows(digits: Seq<u8>, k: int)
    requires
        0 <= k <= digits.len(),
        digits_value(digits) is Some,
    ensures
        digits_value(digits.subrange(0, k)) is Some,
        digits_value(digits.subrange(0, k))->0 <= digits_value(digits)->0,
    decreases digits.len() - k,
{
    if k == digits.len() {
        assert(digits.subrange(0, k) =~= digits);
    } else {
        assert(digits.drop_last().subrange(0, k) =~= digits.subrange(0, k));
        digits_value_grows(digits.drop_last(), k);
    }
}

proof fn digits_value_needs_digits(digits: Seq<u8>, k: int)
    requires
        0 <= k < digits.len(),
        digit_value(digits[k]) is None,
    ensures
        digits_value(digits) is None,
    decreases digits.len(),
{
    if k < digits.len() - 1 {
        digits_value_needs_digits(digits.drop_last(), k);
    }
}

impl SteamId {
    /// Reads an application identifier from its decimal text.
    pub fn try_from(value: String) -> (id: Result<Self, ()>)
        ensures
            match id {
                Ok(found) => steam_id_of(encode_utf8(value@)) == Some(found.0),
                Err(_) => steam_id_of(encode_utf8(value@)) is None,
            },
    {
        let text = value.as_str().as_bytes();
        let start: usize = if text.len() > 0 && text[0] == 0x2b {
            1
        } else {
            0
        };
        if text.len() == start {
            return Err(());
        }
        let ghost digits = text@.subrange(start as int, text@.len() as int);
        proof {
            if start == 1 {
                assert(digits =~= text@.drop_first());
            } else {
                assert(digits =~= text@);
            }
        }
        let mut value_so_far: u64 = 0;
        let mut i: usize = start;
        while i < text.len()
            invariant
                start <= i <= text@.len(),
                text@ == encode_utf8(value@),
                digits.len() > 0,
                digits == text@.subrange(start as int, text@.len() as int),
                digits == (if text@.len() > 0 && text@[0] == 0x2b {
                    text@.drop_first()
                } else {
                    text@
                }),
                digits_value(digits.subrange(0, i - start)) == Some(value_so_far as nat),
                value_so_far <= u32::MAX,
            decreases text@.len() - i,
        {
            let b = text[i];
            if b < 0x30 || b > 0x39 {
                proof {
                    assert(digits[i - start] == b);
                    digits_value_needs_digits(digits, i - start);
                }
                return Err(());
            }
            let next: u64 = value_so_far * 10 + (b - 0x30) as u64;
            proof {
                assert(digits.subrange(0, i + 1 - start).drop_last() =~= digits.subrange(
                    0,
                    i - start,
                ));
                assert(digits.subrange(0, i + 1 - start).last() == b);
                assert(digits_value(digits.subrange(0, i + 1 - start)) == Some(next as nat));
            }
            if next > 0xffff_ffff {
                proof {
                    if digits_value(digits) is Some {
                        digits_value_grows(digits, i + 1 - start);
                    }
                }
                return Err(());
            }
            value_so_far = next;
            i += 1;
        }
        proof {
            assert(digits.subrange(0, i - start) =~= digits);
        }
        Ok(SteamId(value_so_far as u32))
    }
}

impl Game {
    /// The name of the game as it is shown to people.
    pub open spec fn pretty_name_spec(&self) -> Seq<char> {
        match self {
            Game::HorizonZeroDawn => "Horizon: Zero Dawn"@,
            Game::HorizonZeroDawnRemastered => "Horizon: Zero Dawn Remastered"@,
            Game::HorizonForbiddenWest => "Horizon: Forbidden West"@,
            Game::DeathStranding => "DEATH STRANDING"@,
            Game::DeathStrandingDirectorsCut => "DEATH STRANDING DIRECTOR'S CUT"@,
        }
    }

    /// The short code of the game, under which modules depend on it.
    pub open spec fn code_spec(&self) -> Seq<char> {
        match self {
            Game::HorizonZeroDawn => "hzd"@,
            Game::HorizonZeroDawnRemastered => "hzdr"@,
            Game::HorizonForbiddenWest => "hfw"@,
            Game::DeathStranding => "ds"@,
            Game::DeathStrandingDirectorsCut => "dsdc"@,
        }
    }

    /// The directory of the game below `steamapps/common`.
    pub open spec fn steam_install_dir_spec(&self) -> Seq<char> {
        match self {
            Game::HorizonZeroDawn => "Horizon Zero Dawn"@,
            Game::HorizonZeroDawnRemastered => "Horizon Zero Dawn Remastered"@,
            Game::HorizonForbiddenWest => "Horizon Forbidden West Complete Edition"@,
            Game::DeathStranding => "DEATH STRANDING"@,
            Game::DeathStrandingDirectorsCut => "DEATH STRANDING DIRECTORS CUT"@,
        }
    }

    /// The application identifier of the game.
    pub open spec fn steam_id_spec(&self) -> u32 {
        match self {
            Game::HorizonZeroDawn => STEAM_ID_HZD,
            Game::HorizonZeroDawnRemastered => STEAM_ID_HZDR,
            Game::HorizonForbiddenWest => STEAM_ID_HFW,
            Game::DeathStranding => STEAM_ID_DS,
            Game::DeathStrandingDirectorsCut => STEAM_ID_DSDC,
        }
    }

    /// The command that asks Steam to run the game.
    pub open spec fn run_command_spec(&self) -> Seq<char> {
        match self {
            Game::HorizonZeroDawn => "steam://rungameid/1151640"@,
            Game::HorizonZeroDawnRemastered => "steam://rungameid/2561580"@,
            Game::HorizonForbiddenWest => "steam://rungameid/2420110"@,
            Game::DeathStranding => "steam://rungameid/1190460"@,
            Game::DeathStrandingDirectorsCut => "steam://rungameid/1850570"@,
        }
    }

    /// The name of the game as it is shown to people.
    pub fn pretty_name(&self) -> (name: String)
        ensures
            name@ == self.pretty_name_spec(),
    {
        match self {
            Game::HorizonZeroDawn => "Horizon: Zero Dawn",
            Game::HorizonZeroDawnRemastered => "Horizon: Zero Dawn Remastered",
            Game::HorizonForbiddenWest => "Horizon: Forbidden West",
            Game::DeathStranding => "DEATH STRANDING",
            Game::DeathStrandingDirectorsCut => "DEATH STRANDING DIRECTOR'S CUT",
        }.to_owned()
    }

    /// The short code of the game, under which modules depend on it.
    pub fn code(&self) -> (code: String)
        ensures
            code@ == self.code_spec(),
    {
        match self {
            Game::HorizonZeroDawn => "hzd",
            Game::HorizonZeroDawnRemastered => "hzdr",
            Game::HorizonForbiddenWest => "hfw",
            Game::DeathStranding => "ds",
            Game::DeathStrandingDirectorsCut => "dsdc",
        }.to_owned()
    }

    /// The directory of the game below `steamapps/common`.
    pub fn steam_install_dir(&self) -> (dir: String)
        ensures
            dir@ == self.steam_install_dir_spec(),
    {
        match self {
            Game::HorizonZeroDawn => "Horizon Zero Dawn",
            Game::HorizonZeroDawnRemastered => "Horizon Zero Dawn Remastered",
            Game::HorizonForbiddenWest => "Horizon Forbidden West Complete Edition",
            Game::DeathStranding => "DEATH STRANDING",
            Game::DeathStrandingDirectorsCut => "DEATH STRANDING DIRECTORS CUT",
        }.to_owned()
    }

    /// The application identifier of the game.
    pub fn steam_id(&self) -> (id: SteamId)
        ensures
            id.0 == self.steam_id_spec(),
            game_of_id(id.0) == Some(*self),
    {
        match self {
            Game::HorizonZeroDawn => SteamId(STEAM_ID_HZD),
            Game::HorizonZeroDawnRemastered => SteamId(STEAM_ID_HZDR),
            Game::HorizonForbiddenWest => SteamId(STEAM_ID_HFW),
            Game::DeathStranding => SteamId(STEAM_ID_DS),
            Game::DeathStrandingDirectorsCut => SteamId(STEAM_ID_DSDC),
        }
    }

    /// The path of the game inside a library folder, as its components from
    /// the library folder down.
    pub fn steam_path(&self, library_path: &String) -> (path: Vec<String>)
        ensures
            path@.len() == 4,
            path@[0]@ == library_path@,
            path@[1]@ == "steamapps"@,
            path@[2]@ == "common"@,
            path@[3]@ == self.steam_install_dir_spec(),
    {
        let mut path: Vec<String> = Vec::new();
        path.push(library_path.clone());
        path.push("steamapps".to_owned());
        path.push("common".to_owned());
        path.push(self.steam_install_dir());
        path
    }

    /// The command that asks Steam to run the game.
    pub fn run_command(&self) -> (command: String)
        ensures
            command@ == self.run_command_spec(),
    {
        match self {
            Game::HorizonZeroDawn => "steam://rungameid/1151640",
            Game::HorizonZeroDawnRemastered => "steam://rungameid/2561580",
            Game::HorizonForbiddenWest => "steam://rungameid/2420110",
            Game::DeathStranding => "steam://rungameid/1190460",
            Game::DeathStrandingDirectorsCut => "steam://rungameid/1850570",
        }.to_owned()
    }

    /// The game that is sold under an application identifier.
    pub fn try_from(value: SteamId) -> (game: Result<Game, ()>)
        ensures
            match game {
                Ok(found) => game_of_id(value.0) == Some(found),
                Err(_) => game_of_id(value.0) is None,
            },
    {
        if value.0 == STEAM_ID_HZD {
            Ok(Game::HorizonZeroDawn)
        } else if value.0 == STEAM_ID_HZDR {
            Ok(Game::HorizonZeroDawnRemastered)
        } else if value.0 == STEAM_ID_HFW {
            Ok(Game::HorizonForbiddenWest)
        } else if value.0 == STEAM_ID_DS {
            Ok(Game::DeathStranding)
        } else if value.0 == STEAM_ID_DSDC {
            Ok(Game::DeathStrandingDirectorsCut)
        } else {
            Err(())
        }
    }

    /// The game that the executable of the running process belongs to.
    pub fn from_executable(file_name: &String) -> (game: Option<Game>)
        ensures
            game == game_of_executable(file_name@),
    {
        if *file_name == "HorizonZeroDawn.exe".to_owned() {
            Some(Game::HorizonZeroDawn)
        } else if *file_name == "HorizonZeroDawnRemastered.exe".to_owned() {
            Some(Game::HorizonZeroDawnRemastered)
        } else if *file_name == "HorizonForbiddenWest.exe".to_owned() {
            Some(Game::HorizonForbiddenWest)
        } else if *file_name == "ds.exe".to_owned() {
            Some(Game::DeathStrandingDirectorsCut)
        } else {
            None
        }
    }
}

/// The version that the version resource of the host's executable states:
/// major, minor, patch and build number, each twelve bits wide.
pub open spec fn file_version_spec(version_ms: u32, version_ls: u32) -> (u64, u64, u64, u64) {
    (
        ((version_ms >> 16) & 0xfff) as u64,
        (version_ms & 0xfff) as u64,
        ((version_ls >> 16) & 0xfff) as u64,
        (version_ls & 0xfff) as u64,
    )
}

/// Splits the two words of a file version into major, minor, patch and build
/// number.
pub fn file_version(version_ms: u32, version_ls: u32) -> (fields: (u64, u64, u64, u64))
    ensures
        fields == file_version_spec(version_ms, version_ls),
        fields.0 < 0x1000 && fields.1 < 0x1000 && fields.2 < 0x1000 && fields.3 < 0x1000,
{
    let major: u32 = (version_ms >> 16) & 0xfff;
    let minor: u32 = version_ms & 0xfff;
    let patch: u32 = (version_ls >> 16) & 0xfff;
    let build: u32 = version_ls & 0xfff;
    assert(((version_ms >> 16) & 0xfff) < 0x1000) by (bit_vector);
    assert((version_ms & 0xfff) < 0x1000) by (bit_vector);
    assert(((version_ls >> 16) & 0xfff) < 0x1000) by (bit_vector);
    assert((version_ls & 0xfff) < 0x1000) by (bit_vector);
    (major as u64, minor as u64, patch as u64, build as u64)
}

/// The game installed under an application key of a library folder, if the
/// key is the identifier of a known game.
pub open spec fn game_of_app(app: Seq<u8>) -> Option<Game> {
    match steam_id_of(app) {
        Some(id) => game_of_id(id),
        None => None,
    }
}

/// The installations among the first `count` applications of a folder, in
/// their order.
pub open spec fn folder_installations(folder: LibraryFolder, count: int) -> Seq<InstallationView>
    decreases count,
{
    if count <= 0 {
        Seq::empty()
    } else {
        let front = folder_installations(folder, count - 1);
        match game_of_app(encode_utf8(folder.apps@[count - 1].0@)) {
            Some(game) => front.push(
                InstallationView {
                    game,
                    library_path: folder.path@,
                    run_command: game.run_command_spec(),
                },
            ),
            None => front,
        }
    }
}

/// The installations in the first `count` folders, in their order.
pub open spec fn library_installations(folders: Seq<(String, LibraryFolder)>, count: int) -> Seq<
    InstallationView,
>
    decreases count,
{
    if count <= 0 {
        Seq::empty()
    } else {
        library_installations(folders, count - 1) + folder_installations(
            folders[count - 1].1,
            folders[count - 1].1.apps@.len() as int,
        )
    }
}

/// The views of a list of installations.
pub open spec fn installation_views(installations: Seq<Installation>) -> Seq<InstallationView> {
    installations.map_values(|i: Installation| i@)
}

/// Finds installations on the Steam platform.
pub struct SteamInstallPlatform;

impl SteamInstallPlatform {
    /// The installations of known games that the library folders list: one
    /// for every application key that is the identifier of a known game, in
    /// the order of folders and keys.
    pub fn find_installations(library: &LibraryFolders) -> (installs: Vec<Installation>)
        ensures
            installation_views(installs@) == library_installations(
                library.folders@,
                library.folders@.len() as int,
            ),
    {
        let mut installs: Vec<Installation> = Vec::new();
        let mut f: usize = 0;
        proof {
            assert(installation_views(installs@) =~= Seq::<InstallationView>::empty());
        }
        while f < library.folders.len()
            invariant
                f <= library.folders@.len(),
                installation_views(installs@) == library_installations(library.folders@, f as int),
            decreases library.folders@.len() - f,
        {
            let folder = &library.folders[f].1;
            let ghost before = installation_views(installs@);
            let mut a: usize = 0;
            proof {
                assert(before + folder_installations(*folder, 0) =~= before);
            }
            while a < folder.apps.len()
                invariant
                    f < library.folders@.len(),
                    folder == &library.folders@[f as int].1,
                    a <= folder.apps@.len(),
                    installation_views(installs@) == before + folder_installations(
                        *folder,
                        a as int,
                    ),
                decreases folder.apps@.len() - a,
            {
                let ghost earlier = installs@;
                let found = match SteamId::try_from(folder.apps[a].0.clone()) {
                    Ok(id) => Game::try_from(id),
                    Err(_) => Err(()),
                };
                match found {
                    Ok(game) => {
                        let install = Installation::Steam {
                            run_command: game.run_command(),
                            game,
                            library_path: folder.path.clone(),
                        };
                        installs.push(install);
                        proof {
                            assert(installation_views(installs@) =~= installation_views(
                                earlier,
                            ).push(install@));
                            assert(before + folder_installations(*folder, a + 1) =~= (before
                                + folder_installations(*folder, a as int)).push(install@));
                        }
                    },
                    Err(_) => {},
                }
                a += 1;
            }
            f += 1;
        }
        installs
    }
}

/// Finds all installations of known games that the library folders list.
pub fn find_installations(library: &LibraryFolders) -> (installs: Vec<Installation>)
    ensures
        installation_views(installs@) == library_installations(
            library.folders@,
            library.folders@.len() as int,
        ),
{
    SteamInstallPlatform::find_installations(library)
}

/// The application identifier of a game is that of no other game, and leads
/// back to the game.
pub proof fn steam_id_identifies_game(game: Game, other: Game)
    ensures
        game_of_id(game.steam_id_spec()) == Some(game),
        game.steam_id_spec() == other.steam_id_spec() ==> game == other,
{
}

} // verus!
