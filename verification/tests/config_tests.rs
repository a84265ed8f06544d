use witch_common::memory::LuminousGame;
use witch_common::scarlet::patching::{bytes_equal, patch_action, PatchAction, PatchFailure, PatchProgress};
use witch_common::scarlet::config::{
    default_bool, default_log_level, patch_comment, patches_table_comment, plan_patches, resolve_patches, Config,
    PatchOp, Patches, WinePatchMode,
};

fn ops(v: Vec<PatchOp>) -> Vec<(u64, Vec<u8>, Option<Vec<u8>>)> {
    v.into_iter().map(|o| (o.offset, o.bytes, o.check)).collect()
}

#[test]
fn defaults() {
    assert!(default_bool::<true>());
    assert!(!default_bool::<false>());
    assert_eq!(default_log_level(), "debug");
    let c = Config::default();
    assert!(c.enable_hud);
    assert_eq!(c.log_level, "debug");
    let p = Patches::default();
    assert!(p.dll_signature && p.anti_debugger && p.disable_benchmark_results);
    assert_eq!(p.wine, WinePatchMode::Auto);
    assert_eq!(p.dxvk, WinePatchMode::Auto);
    assert_eq!(p.steamdeck, WinePatchMode::Auto);
    assert_eq!(WinePatchMode::default(), WinePatchMode::Auto);
}

#[test]
fn wine_patch_mode_switch_round_trip() {
    assert_eq!(WinePatchMode::from(true), WinePatchMode::Enable);
    assert_eq!(WinePatchMode::from(false), WinePatchMode::Disable);
    for b in [true, false] {
        assert_eq!(bool::from(WinePatchMode::from(b)), b);
    }
    assert!(bool::from(WinePatchMode::Auto));
    assert!(bool::from(WinePatchMode::Force));
}

#[test]
fn auto_modes_resolved_from_environment() {
    let p = resolve_patches(Patches::default(), false, false);
    assert_eq!((p.wine, p.dxvk, p.steamdeck), (WinePatchMode::Enable, WinePatchMode::Enable, WinePatchMode::Enable));
    let p = resolve_patches(Patches::default(), true, false);
    assert_eq!((p.wine, p.dxvk, p.steamdeck), (WinePatchMode::Disable, WinePatchMode::Disable, WinePatchMode::Enable));
    let p = resolve_patches(Patches::default(), false, true);
    assert_eq!((p.wine, p.dxvk, p.steamdeck), (WinePatchMode::Disable, WinePatchMode::Disable, WinePatchMode::Disable));
    let mut fixed = Patches::default();
    fixed.wine = WinePatchMode::Force;
    assert_eq!(resolve_patches(fixed, true, true).wine, WinePatchMode::Force);
}

#[test]
fn ffxv_patches() {
    assert_eq!(
        ops(plan_patches(LuminousGame::FinalFantasyXV, Patches::default(), false, false)),
        vec![
            (0x2ddaaa0, vec![0xc3], None),
            (0xeeb46e0, vec![0xc3], None),
            (0xeeb5120, vec![0xc3], None),
        ]
    );
    let mut p = Patches::default();
    p.dll_signature = false;
    assert!(plan_patches(LuminousGame::FinalFantasyXV, p, false, false).is_empty());
}

#[test]
fn forspoken_patches_off_steam() {
    assert_eq!(
        ops(plan_patches(LuminousGame::FORSPOKEN, Patches::default(), false, false)),
        vec![
            (0x3e2d9bb, vec![0xeb], Some(vec![0x75])),
            (0x0799bac, vec![0xeb], Some(vec![0x74])),
            (0x3e29034, vec![0xb8, 0x00, 0x00, 0x00, 0x00, 0x90], Some(vec![0xff, 0x90, 0x10, 0x01, 0x00, 0x00])),
            (0x6b9c8b0, vec![0x00], Some(vec![0x77])),
            (0x6d502b0, vec![0x00], Some(vec![0x57])),
            (0x3185590, vec![0xc3], Some(vec![0x48])),
        ]
    );
}

#[test]
fn forspoken_patches_on_steamos() {
    assert_eq!(
        ops(plan_patches(LuminousGame::FORSPOKEN, Patches::default(), true, false)),
        vec![
            (0x3e2d9bb, vec![0xeb], Some(vec![0x75])),
            (0x0799bac, vec![0xeb], Some(vec![0x74])),
            (0x3e29034, vec![0xb8, 0x00, 0x00, 0x00, 0x00, 0x90], Some(vec![0xff, 0x90, 0x10, 0x01, 0x00, 0x00])),
            (0x4705a5b, vec![0x90, 0x90], Some(vec![0x75, 0x21])),
            (0x4299712, vec![0x90; 6], Some(vec![0x0f, 0x85, 0xfd, 0x2d, 0x00, 0x00])),
            (0x43ff1a3, vec![0x90; 6], Some(vec![0x0f, 0x84, 0x7e, 0x00, 0x00, 0x00])),
            (0x43ff6fd, vec![0x90; 6], Some(vec![0x0f, 0x84, 0x9a, 0x00, 0x00, 0x00])),
            (0x43ff940, vec![0xeb], Some(vec![0x74])),
            (0x429f9d9, vec![0xeb], Some(vec![0x74])),
            (0x43e8860, vec![0x90; 6], Some(vec![0x0f, 0x85, 0x42, 0x02, 0x00, 0x00])),
            (0x3e32b2a, vec![0xeb], Some(vec![0x74])),
            (0x3185590, vec![0xc3], Some(vec![0x48])),
        ]
    );
}

#[test]
fn forspoken_forced_modes() {
    let mut p = Patches::default();
    p.dll_signature = false;
    p.anti_debugger = false;
    p.disable_benchmark_results = false;
    p.steamdeck = WinePatchMode::Force;
    p.wine = WinePatchMode::Force;
    p.dxvk = WinePatchMode::Force;
    assert_eq!(
        ops(plan_patches(LuminousGame::FORSPOKEN, p, false, false)),
        vec![
            (0x3e29034, vec![0xb8, 0x01, 0x00, 0x00, 0x00, 0x90], Some(vec![0xff, 0x90, 0x10, 0x01, 0x00, 0x00])),
            (0x3e29059, vec![0x48, 0xc7, 0xc0, 0x01, 0x00, 0x00, 0x00, 0x90, 0x90], Some(vec![0x48, 0x8b, 0xc8, 0xff, 0x15, 0x0e, 0x82, 0x28, 0x01])),
            (0x6d502b0, vec![0xeb, 0x12], Some(vec![0x74, 0x19])),
        ]
    );
}

#[test]
fn patch_comments() {
    assert!(patches_table_comment().starts_with("# for wine, dxvk, and steamdeck options the options are:\n"));
    assert_eq!(patch_comment("wine_reenable_xess"), Some("# re-enables XeSS\n"));
    assert_eq!(patch_comment("dll_signature"), Some("# dll signature checking, allows for things like ReShade to load\n"));
    assert_eq!(patch_comment("enable_hud"), None);
}

#[test]
fn planned_checks_guard_whole_writes() {
    let modes = [WinePatchMode::Auto, WinePatchMode::Disable, WinePatchMode::Enable, WinePatchMode::Force];
    for game in [LuminousGame::FORSPOKEN, LuminousGame::FinalFantasyXV] {
        for wine in modes {
            for dxvk in modes {
                for steamdeck in modes {
                    for env in [(false, false), (true, false), (false, true)] {
                        let mut p = Patches::default();
                        p.wine = wine;
                        p.dxvk = dxvk;
                        p.steamdeck = steamdeck;
                        for op in plan_patches(game, p, env.0, env.1) {
                            if let Some(check) = op.check {
                                assert_eq!(check.len(), op.bytes.len());
                            }
                        }
                    }
                }
            }
        }
    }
}

fn op(bytes: Vec<u8>, check: Option<Vec<u8>>) -> PatchOp {
    PatchOp { offset: 0x10, bytes, check }
}

#[test]
fn patch_steps_with_check() {
    let p = op(vec![0xeb], Some(vec![0x75]));
    assert_eq!(patch_action(&p, &PatchProgress::Started), PatchAction::ReadCheck);
    assert_eq!(patch_action(&p, &PatchProgress::CheckRead(Some(vec![0x75]))), PatchAction::Write);
    assert_eq!(
        patch_action(&p, &PatchProgress::CheckRead(Some(vec![0x74]))),
        PatchAction::Failed(PatchFailure::CheckMismatch)
    );
    assert_eq!(patch_action(&p, &PatchProgress::CheckRead(None)), PatchAction::Failed(PatchFailure::CheckReadFailed));
    assert_eq!(patch_action(&p, &PatchProgress::Wrote(true)), PatchAction::ReadBack);
    assert_eq!(patch_action(&p, &PatchProgress::Wrote(false)), PatchAction::Failed(PatchFailure::WriteFailed));
    assert_eq!(patch_action(&p, &PatchProgress::ReadBack(Some(vec![0xeb]))), PatchAction::Done);
    assert_eq!(
        patch_action(&p, &PatchProgress::ReadBack(Some(vec![0x75]))),
        PatchAction::Failed(PatchFailure::WriteMismatch)
    );
    assert_eq!(patch_action(&p, &PatchProgress::ReadBack(None)), PatchAction::Failed(PatchFailure::ReadBackFailed));
}

#[test]
fn patch_steps_without_fitting_check() {
    assert_eq!(patch_action(&op(vec![0xc3], None), &PatchProgress::Started), PatchAction::Write);
    assert_eq!(patch_action(&op(vec![0x90, 0x90], Some(vec![0x75])), &PatchProgress::Started), PatchAction::Write);
    assert!(bytes_equal(&[1, 2, 3], &[1, 2, 3]));
    assert!(!bytes_equal(&[1, 2, 3], &[1, 2]));
    assert!(!bytes_equal(&[1, 2, 3], &[1, 2, 4]));
}
