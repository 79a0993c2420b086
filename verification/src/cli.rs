//! Command-line arguments, and what follows from them.
//!
//! The full option set: the instance dir + the validated `--platform` value, plus
//! heap, dummy-auth, directory, and output flags the assembler consumes.

use vstd::prelude::*;

use crate::assemble::{Config, ConfigView};
use crate::download::DownloadOptions;
use crate::natives::{NativeOptions, NativeOptionsView};
use crate::paths::{join_path, path_join};
use crate::platform::Platform;
use crate::replicate::Replicate;

verus! {

/// The arguments of a run.
#[derive(Debug)]
pub struct Args {
    /// Instance directory containing `mmc-pack.json` and `patches/`.
    pub instance_dir: String,
    /// Target platform. Without one, the tool stops after the merged-profile
    /// summary.
    pub platform: Option<Platform>,
    /// Maximum parallel downloads.
    pub jobs: usize,
    /// Skip SHA-1/size verification (faster re-runs).
    pub skip_verify: bool,
    /// Resolve + preflight only; perform no downloads.
    pub dry_run: bool,
    /// Adjust internals for a no-GPU/virtual-display context.
    pub headless: bool,
    /// Force-extract natives whose coordinate contains one of these patterns.
    pub keep_natives: Vec<String>,
    /// Force-skip extracting natives whose coordinate contains one of these
    /// patterns.
    pub skip_natives: Vec<String>,
    /// Initial heap size (`-Xms`).
    pub xms: String,
    /// Max heap size (`-Xmx`).
    pub xmx: String,
    /// Extra JVM arguments, directly behind the heap.
    pub jvm_args: Vec<String>,
    /// JDK to put in the command.
    pub java: Option<String>,
    /// Dummy account name -> `${auth_player_name}`.
    pub username: String,
    /// Dummy account uuid -> `${auth_uuid}`.
    pub uuid: String,
    /// Dummy access token -> `${auth_access_token}`.
    pub access_token: String,
    /// Account type -> `${user_type}`.
    pub user_type: String,
    /// Game working directory -> `${game_directory}`. Default
    /// `<instance>/.minecraft`.
    pub game_dir: Option<String>,
    /// Where to write `launch.argv`. Default `<instance>/launch.argv`.
    pub emit: Option<String>,
    /// Meta base URL to resolve components that have no local
    /// `patches/<uid>.json`.
    pub meta_url: Option<String>,
}

/// What [`Args`] hold.
#[verifier::ext_equal]
pub struct ArgsView {
    pub instance_dir: Seq<char>,
    pub platform: Option<Platform>,
    pub jobs: usize,
    pub skip_verify: bool,
    pub dry_run: bool,
    pub headless: bool,
    pub keep_natives: Seq<Seq<char>>,
    pub skip_natives: Seq<Seq<char>>,
    pub xms: Seq<char>,
    pub xmx: Seq<char>,
    pub jvm_args: Seq<Seq<char>>,
    pub java: Option<Seq<char>>,
    pub username: Seq<char>,
    pub uuid: Seq<char>,
    pub access_token: Seq<char>,
    pub user_type: Seq<char>,
    pub game_dir: Option<Seq<char>>,
    pub emit: Option<Seq<char>>,
    pub meta_url: Option<Seq<char>>,
}

impl DeepView for Args {
    type V = ArgsView;

    open spec fn deep_view(&self) -> ArgsView {
        ArgsView {
            instance_dir: self.instance_dir@,
            platform: self.platform,
            jobs: self.jobs,
            skip_verify: self.skip_verify,
            dry_run: self.dry_run,
            headless: self.headless,
            keep_natives: self.keep_natives.deep_view(),
            skip_natives: self.skip_natives.deep_view(),
            xms: self.xms@,
            xmx: self.xmx@,
            jvm_args: self.jvm_args.deep_view(),
            java: self.java.deep_view(),
            username: self.username@,
            uuid: self.uuid@,
            access_token: self.access_token@,
            user_type: self.user_type@,
            game_dir: self.game_dir.deep_view(),
            emit: self.emit.deep_view(),
            meta_url: self.meta_url.deep_view(),
        }
    }
}

/// `chosen`, or the path `default` in the instance directory.
pub open spec fn or_in_instance(
    chosen: Option<Seq<char>>,
    instance: Seq<char>,
    default: Seq<char>,
) -> Seq<char> {
    match chosen {
        Some(path) => path,
        None => path_join(instance, default),
    }
}

/// The configuration of the assembly.
pub open spec fn config_of(args: ArgsView, instance: Seq<char>, java: Seq<char>) -> ConfigView {
    ConfigView {
        java,
        xms: args.xms,
        xmx: args.xmx,
        jvm_args: args.jvm_args,
        username: args.username,
        uuid: args.uuid,
        access_token: args.access_token,
        user_type: args.user_type,
        game_dir: or_in_instance(args.game_dir, instance, ".minecraft"@),
        headless: args.headless,
    }
}

/// `chosen`, or the path `default` in the instance directory.
fn chosen_path(chosen: &Option<String>, instance: &str, default: &str) -> (path: String)
    ensures
        path@ == or_in_instance(chosen.deep_view(), instance@, default@),
{
    match chosen {
        Some(path) => path.clone(),
        None => join_path(instance, default),
    }
}

/// Build the assembly [`Config`] from the arguments, applying the `--game-dir`
/// default of `<instance>/.minecraft`.
pub fn assemble_config(args: &Args, instance: &str, java: String) -> (config: Config)
    ensures
        config.deep_view() == config_of(args.deep_view(), instance@, java@),
{
    Config {
        java,
        xms: args.xms.clone(),
        xmx: args.xmx.clone(),
        jvm_args: args.jvm_args.replicate(),
        username: args.username.clone(),
        uuid: args.uuid.clone(),
        access_token: args.access_token.clone(),
        user_type: args.user_type.clone(),
        game_dir: chosen_path(&args.game_dir, instance, ".minecraft"),
        headless: args.headless,
    }
}

/// Where `launch.argv` is written: `--emit`, or `<instance>/launch.argv`.
pub fn argv_path(args: &Args, instance: &str) -> (path: String)
    ensures
        path@ == or_in_instance(args.deep_view().emit, instance@, "launch.argv"@),
{
    chosen_path(&args.emit, instance, "launch.argv")
}

/// The download options that follow from the arguments.
pub fn download_options(args: &Args) -> (options: DownloadOptions)
    ensures
        options == (DownloadOptions {
            jobs: args.jobs,
            verify: !args.skip_verify,
            dry_run: args.dry_run,
        }),
{
    DownloadOptions { jobs: args.jobs, verify: !args.skip_verify, dry_run: args.dry_run }
}

/// The native options that follow from the arguments.
pub fn native_options(args: &Args) -> (options: NativeOptions)
    ensures
        options.deep_view() == (NativeOptionsView {
            headless: args.deep_view().headless,
            keep: args.deep_view().keep_natives,
            skip: args.deep_view().skip_natives,
        }),
{
    NativeOptions {
        headless: args.headless,
        keep: args.keep_natives.replicate(),
        skip: args.skip_natives.replicate(),
    }
}

/// What the caller chose is taken as it is; only what was left open goes to its default
/// place in the instance.
pub proof fn choices_win_over_defaults(args: ArgsView, instance: Seq<char>, java: Seq<char>)
    ensures
        args.game_dir matches Some(dir) ==> config_of(args, instance, java).game_dir == dir,
        args.game_dir is None ==> config_of(args, instance, java).game_dir == path_join(
            instance,
            ".minecraft"@,
        ),
        args.emit matches Some(path) ==> or_in_instance(args.emit, instance, "launch.argv"@)
            == path,
        args.emit is None ==> or_in_instance(args.emit, instance, "launch.argv"@) == path_join(
            instance,
            "launch.argv"@,
        ),
{
}

/// Each knob of the assembly is the argument of the same name, and java is the selected
/// one.
pub proof fn knobs_are_the_arguments(args: ArgsView, instance: Seq<char>, java: Seq<char>)
    ensures
        ({
            let config = config_of(args, instance, java);
            &&& config.java == java
            &&& (config.xms, config.xmx) == (args.xms, args.xmx)
            &&& config.jvm_args == args.jvm_args
            &&& config.username == args.username
            &&& config.uuid == args.uuid
            &&& config.access_token == args.access_token
            &&& config.user_type == args.user_type
            &&& config.headless == args.headless
        }),
{
}

} // verus!
