//! `Profile` - the merged result of folding every patch.
//!
//! An ordered library list, the resolved last-wins fields, and the accumulated
//! argument / tweaker / trait / agent lists. It is produced by `merge` and never
//! changed after.

use vstd::prelude::*;

use crate::model::patch::{
    Agent, AgentView, ArgEntry, ArgEntryView, AssetIndexRef, AssetIndexRefView, Dependency,
    DependencyView, Library, LibraryView, Logging, LoggingView, MainJar, MainJarView,
};
use crate::replicate::Replicate;

verus! {

/// The game-argument form in effect for a profile. The legacy and modern forms
/// are never mixed.
#[derive(Debug)]
pub enum GameArgs {
    /// No component declared game arguments.
    Absent,
    /// Legacy `minecraftArguments` string; last-wins.
    Legacy(String),
    /// Modern `arguments { game, jvm }`; entries accumulate in order.
    Modern { game: Vec<ArgEntry>, jvm: Vec<ArgEntry> },
}

/// What a [`GameArgs`] holds.
#[verifier::ext_equal]
pub enum GameArgsView {
    Absent,
    Legacy(Seq<char>),
    Modern { game: Seq<ArgEntryView>, jvm: Seq<ArgEntryView> },
}

impl DeepView for GameArgs {
    type V = GameArgsView;

    open spec fn deep_view(&self) -> GameArgsView {
        match self {
            GameArgs::Absent => GameArgsView::Absent,
            GameArgs::Legacy(arguments) => GameArgsView::Legacy(arguments@),
            GameArgs::Modern { game, jvm } => GameArgsView::Modern {
                game: game.deep_view(),
                jvm: jvm.deep_view(),
            },
        }
    }
}

impl Replicate for GameArgs {
    fn replicate(&self) -> (copy: Self) {
        match self {
            GameArgs::Absent => GameArgs::Absent,
            GameArgs::Legacy(arguments) => GameArgs::Legacy(arguments.clone()),
            GameArgs::Modern { game, jvm } => GameArgs::Modern {
                game: game.replicate(),
                jvm: jvm.replicate(),
            },
        }
    }
}

impl Clone for GameArgs {
    fn clone(&self) -> (copy: Self)
        ensures
            copy.deep_view() == self.deep_view(),
    {
        self.replicate()
    }
}

impl Default for GameArgs {
    fn default() -> (args: Self)
        ensures
            args.deep_view() == GameArgsView::Absent,
    {
        GameArgs::Absent
    }
}

/// The merged launch profile - input to resolve and assemble.
#[derive(Debug)]
pub struct Profile {
    /// Classpath libraries in (component order, then declared order).
    pub libraries: Vec<Library>,
    /// `mavenFiles`: downloaded but kept off the classpath.
    pub maven_files: Vec<Library>,
    /// Entrypoint class; the last component that set it wins.
    pub main_class: Option<String>,
    /// Client jar; last-wins.
    pub main_jar: Option<MainJar>,
    /// Asset index; last-wins.
    pub asset_index: Option<AssetIndexRef>,
    /// Log4j configuration; last-wins.
    pub logging: Option<Logging>,
    /// Active game-argument form (see [`GameArgs`]).
    pub game_args: GameArgs,
    /// `+jvmArgs`, accumulated and kept pre-tokenized.
    pub jvm_args: Vec<String>,
    /// `+tweakers`, accumulated in order.
    pub tweakers: Vec<String>,
    /// `+traits`, accumulated in order.
    pub traits: Vec<String>,
    /// `+agents`, accumulated in order.
    pub agents: Vec<Agent>,
    /// Collected Java-major hints, order-preserving and without repetition.
    pub compatible_java_majors: Vec<u32>,
    /// Collected requirements.
    pub requires: Vec<Dependency>,
    /// Collected conflicts.
    pub conflicts: Vec<Dependency>,
}

/// What a [`Profile`] holds.
#[verifier::ext_equal]
pub struct ProfileView {
    pub libraries: Seq<LibraryView>,
    pub maven_files: Seq<LibraryView>,
    pub main_class: Option<Seq<char>>,
    pub main_jar: Option<MainJarView>,
    pub asset_index: Option<AssetIndexRefView>,
    pub logging: Option<LoggingView>,
    pub game_args: GameArgsView,
    pub jvm_args: Seq<Seq<char>>,
    pub tweakers: Seq<Seq<char>>,
    pub traits: Seq<Seq<char>>,
    pub agents: Seq<AgentView>,
    pub compatible_java_majors: Seq<u32>,
    pub requires: Seq<DependencyView>,
    pub conflicts: Seq<DependencyView>,
}

impl DeepView for Profile {
    type V = ProfileView;

    open spec fn deep_view(&self) -> ProfileView {
        ProfileView {
            libraries: self.libraries.deep_view(),
            maven_files: self.maven_files.deep_view(),
            main_class: self.main_class.deep_view(),
            main_jar: self.main_jar.deep_view(),
            asset_index: self.asset_index.deep_view(),
            logging: self.logging.deep_view(),
            game_args: self.game_args.deep_view(),
            jvm_args: self.jvm_args.deep_view(),
            tweakers: self.tweakers.deep_view(),
            traits: self.traits.deep_view(),
            agents: self.agents.deep_view(),
            compatible_java_majors: self.compatible_java_majors.deep_view(),
            requires: self.requires.deep_view(),
            conflicts: self.conflicts.deep_view(),
        }
    }
}

impl Replicate for Profile {
    fn replicate(&self) -> (copy: Self) {
        Profile {
            libraries: self.libraries.replicate(),
            maven_files: self.maven_files.replicate(),
            main_class: self.main_class.replicate(),
            main_jar: self.main_jar.replicate(),
            asset_index: self.asset_index.replicate(),
            logging: self.logging.replicate(),
            game_args: self.game_args.replicate(),
            jvm_args: self.jvm_args.replicate(),
            tweakers: self.tweakers.replicate(),
            traits: self.traits.replicate(),
            agents: self.agents.replicate(),
            compatible_java_majors: self.compatible_java_majors.replicate(),
            requires: self.requires.replicate(),
            conflicts: self.conflicts.replicate(),
        }
    }
}

impl Clone for Profile {
    fn clone(&self) -> (copy: Self)
        ensures
            copy.deep_view() == self.deep_view(),
    {
        self.replicate()
    }
}

/// A profile into which nothing has been merged.
pub open spec fn empty_profile() -> ProfileView {
    ProfileView {
        libraries: Seq::empty(),
        maven_files: Seq::empty(),
        main_class: None,
        main_jar: None,
        asset_index: None,
        logging: None,
        game_args: GameArgsView::Absent,
        jvm_args: Seq::empty(),
        tweakers: Seq::empty(),
        traits: Seq::empty(),
        agents: Seq::empty(),
        compatible_java_majors: Seq::empty(),
        requires: Seq::empty(),
        conflicts: Seq::empty(),
    }
}

impl Default for Profile {
    fn default() -> (profile: Self)
        ensures
            profile.deep_view() == empty_profile(),
    {
        let profile = Profile {
            libraries: Vec::new(),
            maven_files: Vec::new(),
            main_class: None,
            main_jar: None,
            asset_index: None,
            logging: None,
            game_args: GameArgs::Absent,
            jvm_args: Vec::new(),
            tweakers: Vec::new(),
            traits: Vec::new(),
            agents: Vec::new(),
            compatible_java_majors: Vec::new(),
            requires: Vec::new(),
            conflicts: Vec::new(),
        };
        proof {
            assert(profile.deep_view() =~= empty_profile());
        }
        profile
    }
}

} // verus!
