use cauldron::game_detection::{
    file_version, find_installations, Game, Installation, LibraryFolder, LibraryFolders, SteamId,
    SteamInstallPlatform, STEAM_ID_DS, STEAM_ID_DSDC, STEAM_ID_HFW, STEAM_ID_HZD, STEAM_ID_HZDR,
};

fn s(text: &str) -> String {
    text.to_string()
}

fn folder(path: &str, apps: &[&str]) -> LibraryFolder {
    LibraryFolder {
        path: s(path),
        label: s(""),
        content_id: s("1"),
        total_size: s("0"),
        update_clean_bytes_tally: s("0"),
        time_last_update_verified: s("0"),
        apps: apps.iter().map(|a| (s(a), s("123"))).collect(),
    }
}

const ALL: [Game; 5] = [
    Game::HorizonZeroDawn,
    Game::HorizonZeroDawnRemastered,
    Game::HorizonForbiddenWest,
    Game::DeathStranding,
    Game::DeathStrandingDirectorsCut,
];

#[test]
fn games_have_their_names_and_codes() {
    assert_eq!(Game::HorizonZeroDawn.pretty_name(), "Horizon: Zero Dawn");
    assert_eq!(Game::HorizonZeroDawnRemastered.pretty_name(), "Horizon: Zero Dawn Remastered");
    assert_eq!(Game::HorizonForbiddenWest.pretty_name(), "Horizon: Forbidden West");
    assert_eq!(Game::DeathStranding.pretty_name(), "DEATH STRANDING");
    assert_eq!(Game::DeathStrandingDirectorsCut.pretty_name(), "DEATH STRANDING DIRECTOR'S CUT");
    let codes: Vec<String> = ALL.iter().map(|g| g.code()).collect();
    assert_eq!(codes, vec!["hzd", "hzdr", "hfw", "ds", "dsdc"]);
}

#[test]
fn games_have_their_steam_identifiers() {
    assert_eq!(Game::HorizonZeroDawn.steam_id(), SteamId(1151640));
    assert_eq!(Game::HorizonZeroDawnRemastered.steam_id(), SteamId(2561580));
    assert_eq!(Game::HorizonForbiddenWest.steam_id(), SteamId(2420110));
    assert_eq!(Game::DeathStranding.steam_id(), SteamId(1190460));
    assert_eq!(Game::DeathStrandingDirectorsCut.steam_id(), SteamId(1850570));
    assert_eq!(
        [STEAM_ID_HZD, STEAM_ID_HZDR, STEAM_ID_HFW, STEAM_ID_DS, STEAM_ID_DSDC],
        [1151640, 2561580, 2420110, 1190460, 1850570]
    );
}

#[test]
fn steam_identifier_leads_back_to_the_game() {
    for game in ALL {
        assert_eq!(Game::try_from(game.steam_id()), Ok(game));
    }
    assert_eq!(Game::try_from(SteamId(0)), Err(()));
    assert_eq!(Game::try_from(SteamId(1151641)), Err(()));
}

#[test]
fn steam_identifier_is_read_as_std_reads_a_u32() {
    let texts = [
        "0", "1151640", "+7", "007", "4294967295", "4294967296", "42949672950", "", "+", "-1",
        "12a", " 12", "1_000", "++1", "99999999999999999999999", "\u{663}",
    ];
    for text in texts {
        let expected = text.parse::<u32>().ok().map(SteamId).ok_or(());
        assert_eq!(SteamId::try_from(s(text)), expected);
    }
    assert_eq!(SteamId::try_from(s("4294967295")), Ok(SteamId(u32::MAX)));
    assert_eq!(SteamId::try_from(s("4294967296")), Err(()));
}

#[test]
fn install_directories_and_paths() {
    assert_eq!(Game::HorizonZeroDawn.steam_install_dir(), "Horizon Zero Dawn");
    assert_eq!(Game::HorizonZeroDawnRemastered.steam_install_dir(), "Horizon Zero Dawn Remastered");
    assert_eq!(
        Game::HorizonForbiddenWest.steam_install_dir(),
        "Horizon Forbidden West Complete Edition"
    );
    assert_eq!(Game::DeathStranding.steam_install_dir(), "DEATH STRANDING");
    assert_eq!(Game::DeathStrandingDirectorsCut.steam_install_dir(), "DEATH STRANDING DIRECTORS CUT");
    assert_eq!(
        Game::DeathStranding.steam_path(&s("/games/steam")),
        vec!["/games/steam", "steamapps", "common", "DEATH STRANDING"]
    );
}

#[test]
fn executable_names_identify_games() {
    assert_eq!(Game::from_executable(&s("HorizonZeroDawn.exe")), Some(Game::HorizonZeroDawn));
    assert_eq!(
        Game::from_executable(&s("HorizonZeroDawnRemastered.exe")),
        Some(Game::HorizonZeroDawnRemastered)
    );
    assert_eq!(
        Game::from_executable(&s("HorizonForbiddenWest.exe")),
        Some(Game::HorizonForbiddenWest)
    );
    assert_eq!(Game::from_executable(&s("ds.exe")), Some(Game::DeathStrandingDirectorsCut));
    assert_eq!(Game::from_executable(&s("DS.exe")), None);
    assert_eq!(Game::from_executable(&s("notepad.exe")), None);
}

#[test]
fn file_version_words_are_split_into_twelve_bit_fields() {
    assert_eq!(file_version(0x0001_0005, 0x0050_0007), (1, 5, 0x50, 7));
    assert_eq!(file_version(0xffff_ffff, 0xffff_ffff), (0xfff, 0xfff, 0xfff, 0xfff));
    assert_eq!(file_version(0x1234_5678, 0x9abc_def0), (0x234, 0x678, 0xabc, 0xef0));
    assert_eq!(file_version(0, 0), (0, 0, 0, 0));
}

#[test]
fn installations_follow_folders_and_apps_in_order() {
    let library = LibraryFolders {
        folders: vec![
            (s("0"), folder("/a", &["228980", "2420110", "junk", "1151640"])),
            (s("1"), folder("/b", &[])),
            (s("2"), folder("/c", &["1850570"])),
        ],
    };
    let expected = vec![
        Installation::Steam {
            game: Game::HorizonForbiddenWest,
            library_path: s("/a"),
            run_command: s("steam://rungameid/2420110"),
        },
        Installation::Steam {
            game: Game::HorizonZeroDawn,
            library_path: s("/a"),
            run_command: s("steam://rungameid/1151640"),
        },
        Installation::Steam {
            game: Game::DeathStrandingDirectorsCut,
            library_path: s("/c"),
            run_command: s("steam://rungameid/1850570"),
        },
    ];
    assert_eq!(find_installations(&library), expected);
    assert_eq!(SteamInstallPlatform::find_installations(&library), expected);
    assert_eq!(find_installations(&LibraryFolders { folders: vec![] }), vec![]);
}

#[test]
fn run_commands_name_the_identifier() {
    for game in ALL {
        assert_eq!(game.run_command(), format!("steam://rungameid/{}", game.steam_id().0));
    }
}
