//! File-name classification.

use reaet::names::is_aet_set_name;
use reaet::names::is_archive_name;
use reaet::names::is_sprite_db_name;
use reaet::names::is_sprite_set_name;
use reaet::names::is_texture_set_name;

#[test]
fn scene_set_names() {
    assert!(is_aet_set_name(b"aet_gam_cmn.bin"));
    assert!(is_aet_set_name(b"aet_.bin"));
    assert!(!is_aet_set_name(b"aet_gam_cmn.farc"));
    assert!(!is_aet_set_name(b"spr_gam_cmn.bin"));
    assert!(!is_aet_set_name(b"aet_bin"));
    assert!(!is_aet_set_name(b""));
}

#[test]
fn sprite_set_names() {
    assert!(is_sprite_set_name(b"spr_gam_cmn.bin"));
    assert!(!is_sprite_set_name(b"aet_gam_cmn.bin"));
    assert!(!is_sprite_set_name(b"xspr_.bin"));
    assert!(is_sprite_set_name(b"spr_db.bin"), "the name pattern alone cannot exclude databases");
}

#[test]
fn texture_set_names() {
    assert!(is_texture_set_name(b"spr_gam_cmn_tex.bin"));
    assert!(is_texture_set_name(b"whatever.txd"));
    assert!(!is_texture_set_name(b"spr_gam_cmn.bin"));
}

#[test]
fn sprite_db_names() {
    assert!(is_sprite_db_name(b"spr_db.bin"));
    assert!(is_sprite_db_name(b"mod_spr_db.bin"));
    assert!(is_sprite_db_name(b"spr_dbxbin"), "the dot matches any byte");
    assert!(is_sprite_db_name(b"anything.spi"));
    assert!(!is_sprite_db_name(b"spr_gam_cmn.bin"));
}

#[test]
fn archive_names() {
    assert!(is_archive_name(b"spr_gam_cmn.farc"));
    assert!(!is_archive_name(b"spr_gam_cmn.bin"));
    assert!(!is_archive_name(b".farcx"));
}
