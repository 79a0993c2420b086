use prism_bootstrap::exit::{exit_code_for, Cause, ExitCode};
use prism_bootstrap::load::{component, pack_path, patch_path, require_patches, Component};
use prism_bootstrap::model::pack::PackComponent;
use prism_bootstrap::model::patch::Patch;

fn listed(uid: &str, version: Option<&str>) -> PackComponent {
    PackComponent {
        uid: uid.to_owned(),
        version: version.map(str::to_owned),
        ..PackComponent::default()
    }
}

#[test]
fn manifest_and_patches_have_their_places() {
    assert_eq!(pack_path("/inst"), "/inst/mmc-pack.json");
    assert_eq!(patch_path("/inst", "net.minecraft"), "/inst/patches/net.minecraft.json");
}

#[test]
fn component_without_a_patch_is_a_gap() {
    match component(&listed("net.minecraft", Some("1.7.10")), "/inst", None) {
        Component::Missing { uid, version, patch_path } => {
            assert_eq!(uid, "net.minecraft");
            assert_eq!(version.as_deref(), Some("1.7.10"));
            assert_eq!(patch_path, "/inst/patches/net.minecraft.json");
        }
        other => panic!("unexpected component {other:?}"),
    }
}

#[test]
fn gap_in_a_complete_instance_is_named() {
    let patch = Patch { uid: "a".to_owned(), ..Patch::default() };
    let components = vec![
        component(&listed("a", None), "/i", Some(patch)),
        component(&listed("b", None), "/i", None),
        component(&listed("c", None), "/i", None),
    ];
    let error = require_patches(&components).unwrap_err();
    assert_eq!(exit_code_for(&error), ExitCode::IoError);
    match error.cause {
        Cause::Other { message } => assert_eq!(
            message,
            "patch file for component 'b' not found at /i/patches/b.json (resolving it from \
             meta.prismlauncher.org is out of scope)"
        ),
        other => panic!("unexpected cause {other:?}"),
    }
}
