use winbend::camera::{box_sums, tilt_word, word_tilt, OFFSET, SH, SW};
use winbend::cli::arg;
use winbend::links::{is_listed_address, wallets, Wallet, DONATE_URL, EVM_ADDRESS, GITHUB_URL, TRON_ADDRESS};
use winbend::menu::{
    after_fold_name, flat_choice, menu_command, style_name, MenuCommand, StyleChoice, CMD_AFTER_LOCK, CMD_FLAT_BASE,
    CMD_FOLD, CMD_IDLE_10, CMD_QUIT, CMD_STYLE_FROST,
};
use winbend::config::{after_fold_from, validate_text_fields, AfterFold};
use winbend::power::{is_set_to, set_power_request, Setting};
use winbend::sensor::{pack_milli_g, unpack_milli_g};

#[test]
fn milli_g_round_trips() {
    for (x, y, z) in [(0, 0, 0), (1000, -1000, 0), (-1, -32768, 32767), (123, 456, -789)] {
        assert_eq!(unpack_milli_g(pack_milli_g(x, y, z)), (x, y, z));
    }
    assert_eq!(pack_milli_g(1, 2, 3), 1 | (2 << 16) | (3 << 32));
    assert_eq!(pack_milli_g(-1, 0, 0), 0xffff);
}

#[test]
fn tilt_words_round_trip() {
    assert_eq!(tilt_word(0), OFFSET);
    assert_eq!(tilt_word(4550), OFFSET + 4550);
    assert_eq!(word_tilt(tilt_word(-250)), -250);
    assert_eq!(word_tilt(tilt_word(13000)), 13000);
    // Further below than the offset, the word saturates at 0.
    assert_eq!(tilt_word(-200_000), 0);
}

#[test]
fn box_sums_of_a_uniform_frame() {
    // 128 x 96 samples, one byte apart: each analysis cell covers 2 x 2 samples.
    let y = vec![3u8; 128 * 96];
    let out = box_sums(&y, 128, 1, 128, 96).unwrap();
    assert_eq!(out.len(), SW * SH);
    assert!(out.iter().all(|&v| v == 12));
}

#[test]
fn box_sums_follow_the_cells() {
    // YUY2-like layout: luma every other byte; the frame is exactly the grid.
    let mut y = vec![0u8; 2 * SW * SH];
    y[2 * (SW + 1)] = 200; // row 1, column 1
    y[1] = 77; // chroma byte, never read
    let out = box_sums(&y, 2 * SW, 2, SW, SH).unwrap();
    assert_eq!(out[SW + 1], 200);
    assert_eq!(out.iter().map(|&v| v as u64).sum::<u64>(), 200);
}

#[test]
fn small_frames_are_skipped() {
    let y = vec![0u8; 32 * 48];
    assert!(box_sums(&y, 32, 1, 32, 48).is_none());
}

#[test]
fn command_line_values() {
    let args: Vec<String> = ["winbend", "--set-power", "lid", "0", "--render"].iter().map(|s| s.to_string()).collect();
    assert_eq!(arg(&args, "--set-power"), Some("lid".to_string()));
    assert_eq!(arg(&args, "lid"), Some("0".to_string()));
    assert_eq!(arg(&args, "--render"), None);
    assert_eq!(arg(&args, "--missing"), None);
}

#[test]
fn power_requests() {
    assert_eq!(Setting::from_arg("lid"), Some(Setting::LidAction));
    assert_eq!(Setting::from_arg("lock"), Some(Setting::LockOnWake));
    assert_eq!(Setting::from_arg("LID"), None);
    assert_eq!(Setting::LidAction.arg(), "lid");
    assert_eq!(Setting::LockOnWake.arg(), "lock");
    assert_eq!(set_power_request("lid", "0"), Some((Setting::LidAction, 0)));
    assert_eq!(set_power_request("lock", "+1"), Some((Setting::LockOnWake, 1)));
    assert_eq!(set_power_request("lid", "3"), Some((Setting::LidAction, 3)));
    assert_eq!(set_power_request("lid", "4"), None);
    assert_eq!(set_power_request("lid", "x"), None);
    assert_eq!(set_power_request("screen", "0"), None);
    assert!(is_set_to(Some((0, 0)), 0));
    assert!(!is_set_to(Some((0, 1)), 0));
    assert!(!is_set_to(None, 0));
}

#[test]
fn tray_commands() {
    assert_eq!(menu_command(CMD_FOLD), MenuCommand::FoldNow);
    assert_eq!(menu_command(CMD_STYLE_FROST), MenuCommand::Style(StyleChoice::Frost));
    assert_eq!(menu_command(CMD_AFTER_LOCK), MenuCommand::AfterFold(AfterFold::Lock));
    assert_eq!(menu_command(CMD_IDLE_10), MenuCommand::IdleMinutes(10));
    assert_eq!(menu_command(CMD_FLAT_BASE), MenuCommand::FlatZone(20));
    assert_eq!(menu_command(CMD_FLAT_BASE + 5), MenuCommand::FlatZone(75));
    assert_eq!(menu_command(CMD_FLAT_BASE + 6), MenuCommand::Ignore);
    assert_eq!(menu_command(CMD_QUIT), MenuCommand::Quit);
    assert_eq!(menu_command(7), MenuCommand::Ignore);
    assert_eq!(flat_choice(2), 40);
    assert_eq!(style_name(StyleChoice::Shade), "shade");
    assert_eq!(after_fold_name(AfterFold::Stay), "none");
    assert_eq!(after_fold_name(AfterFold::DisplayOff), "display_off");
}

#[test]
fn only_listed_addresses_are_copied() {
    let shipped = wallets();
    assert_eq!(shipped.len(), 3);
    assert_eq!(shipped[0].name, "Ethereum (ERC-20)");
    assert_eq!(shipped[1].name, "BNB Smart Chain (BEP-20)");
    assert_eq!(shipped[2].name, "Tron (TRC-20)");
    assert!(is_listed_address(&shipped, "0xf177d181a287f43e45b14235640693d5daac125a"));
    assert!(is_listed_address(&shipped, "TWMBxrG7ERvYYejd2PMuLJS3jnjQCrArAx"));
    assert!(!is_listed_address(&shipped, "0xf177d181a287f43e45b14235640693d5daac125b"));
    assert!(!is_listed_address(&shipped, ""));
    assert_eq!(shipped[0].address, EVM_ADDRESS);
    assert_eq!(shipped[2].address, TRON_ADDRESS);
    let list = [Wallet { name: "Bitcoin", address: "bc1qexample" }];
    assert!(is_listed_address(&list, "bc1qexample"));
    assert!(!is_listed_address(&list, "bc1qother"));
}

#[test]
fn project_links() {
    assert_eq!(GITHUB_URL, "https://github.com/MineGL/winbend");
    assert_eq!(DONATE_URL, "https://github.com/sponsors/MineGL");
}

#[test]
fn tray_names_read_back() {
    for a in [AfterFold::Stay, AfterFold::Lock, AfterFold::Sleep, AfterFold::DisplayOff] {
        assert_eq!(after_fold_from(&after_fold_name(a)), a);
    }
    for c in [StyleChoice::Silk, StyleChoice::Shade, StyleChoice::Frost, StyleChoice::Custom] {
        assert_eq!(validate_text_fields(&style_name(c), "none", "#000000", "Ctrl+Alt+B", "Ctrl+Alt+C"), Ok(()));
    }
}

#[test]
fn power_words_read_back() {
    for s in [Setting::LidAction, Setting::LockOnWake] {
        assert_eq!(Setting::from_arg(s.arg()), Some(s));
    }
}
