//! Construction of a project tree from a configuration and resolved upstream
//! metadata, and the contents of each generated file.

use vstd::prelude::*;
use crate::components::{
    component_name, required_components_of, vendor_component, EmbassyCrates, Vendor,
};
use crate::text::push_char;
use crate::tree::{
    files_named, files_named_in, flatten_node, items_model, join_path, lemma_files_named_push,
    lemma_templates_model, templates_model, ItemModel, NodeModel, Template, TemplateItem,
};

verus! {

/// What a project is generated from.
#[derive(Debug)]
pub struct GeneratorConfig {
    pub name: String,
    pub vendor: Vendor,
    pub mcu: String,
    pub target: String,
    /// When set, the framework is not pinned to a commit.
    pub no_pin: bool,
    /// When set, the project is a workspace with an application and a library package.
    pub workspace: bool,
}

pub struct ConfigModel {
    pub name: Seq<char>,
    pub vendor: Vendor,
    pub mcu: Seq<char>,
    pub target: Seq<char>,
    pub no_pin: bool,
    pub workspace: bool,
}

impl View for GeneratorConfig {
    type V = ConfigModel;

    open spec fn view(&self) -> ConfigModel {
        ConfigModel {
            name: self.name@,
            vendor: self.vendor,
            mcu: self.mcu@,
            target: self.target@,
            no_pin: self.no_pin,
            workspace: self.workspace,
        }
    }
}

/// Upstream metadata resolved for one generation: the commit to pin to, the
/// toolchain channel, and the published version of each component, by name.
#[derive(Debug)]
pub struct ResolvedMetadata {
    pub commit: Option<String>,
    pub channel: String,
    pub versions: Vec<(String, String)>,
}

pub struct MetadataModel {
    pub commit: Option<Seq<char>>,
    pub channel: Seq<char>,
    pub versions: Seq<(Seq<char>, Seq<char>)>,
}

pub open spec fn option_view(o: Option<String>) -> Option<Seq<char>> {
    match o {
        Some(s) => Some(s@),
        None => None,
    }
}

pub open spec fn ref_view(o: Option<&String>) -> Option<Seq<char>> {
    match o {
        Some(s) => Some(s@),
        None => None,
    }
}

impl View for ResolvedMetadata {
    type V = MetadataModel;

    open spec fn view(&self) -> MetadataModel {
        MetadataModel {
            commit: option_view(self.commit),
            channel: self.channel@,
            versions: self.versions@.map_values(|p: (String, String)| (p.0@, p.1@)),
        }
    }
}

/// The version recorded for `name`: the first entry with that name.
pub open spec fn version_of(vs: Seq<(Seq<char>, Seq<char>)>, name: Seq<char>) -> Option<Seq<char>>
    decreases vs.len(),
{
    if vs.len() == 0 {
        None
    } else if vs[0].0 == name {
        Some(vs[0].1)
    } else {
        version_of(vs.drop_first(), name)
    }
}

/// The version recorded for component `k`, empty when there is none.
pub open spec fn version(m: MetadataModel, k: EmbassyCrates) -> Seq<char> {
    match version_of(m.versions, component_name(k)) {
        Some(v) => v,
        None => Seq::empty(),
    }
}

impl ResolvedMetadata {
    /// The version recorded for a component.
    pub fn version(&self, component: EmbassyCrates) -> (r: Option<&String>)
        ensures
            r matches Some(v) ==> version_of(self@.versions, component_name(component)) == Some(v@),
            r is None ==> version_of(self@.versions, component_name(component)) is None,
    {
        let key = String::from_str(component.name());
        let ghost vs = self@.versions;
        proof {
            assert(vs.skip(0) =~= vs);
        }
        let mut i: usize = 0;
        while i < self.versions.len()
            invariant
                0 <= i <= self.versions.len(),
                vs == self@.versions,
                vs.len() == self.versions@.len(),
                key@ == component_name(component),
                version_of(vs, key@) == version_of(vs.skip(i as int), key@),
            decreases self.versions.len() - i,
        {
            proof {
                assert(vs.skip(i + 1) =~= vs.skip(i as int).drop_first());
                assert(vs.skip(i as int)[0] == vs[i as int]);
            }
            if self.versions[i].0 == key {
                return Some(&self.versions[i].1);
            }
            i = i + 1;
        }
        None
    }
}

/// One upstream read needed to fill in a project.
#[derive(Clone, Copy, Debug, PartialEq, Eq, Structural)]
pub enum Query {
    LatestCommit,
    ToolchainChannel,
    ComponentVersion(EmbassyCrates),
}

/// The reads a project for `c` needs, in the order they are made: the
/// latest commit unless pinning is off, the toolchain channel, then the
/// version of each required component.
pub open spec fn queries_of(c: ConfigModel) -> Seq<Query> {
    let head = if c.no_pin {
        seq![Query::ToolchainChannel]
    } else {
        seq![Query::LatestCommit, Query::ToolchainChannel]
    };
    head + required_components_of(c.vendor).map_values(|k: EmbassyCrates| Query::ComponentVersion(k))
}

/// The reads a project for `cfg` needs, in the order they are to be made,
/// one after the other.
pub fn metadata_queries(cfg: &GeneratorConfig) -> (r: Vec<Query>)
    ensures
        r@ == queries_of(cfg@),
{
    let mut r: Vec<Query> = Vec::new();
    if !cfg.no_pin {
        r.push(Query::LatestCommit);
    }
    r.push(Query::ToolchainChannel);
    let ks = crate::components::required_components(cfg.vendor);
    let ghost head = r@;
    let mut i: usize = 0;
    while i < ks.len()
        invariant
            0 <= i <= ks.len(),
            ks@ == required_components_of(cfg.vendor),
            r@ == head + ks@.take(i as int).map_values(|k: EmbassyCrates| Query::ComponentVersion(k)),
        decreases ks.len() - i,
    {
        r.push(Query::ComponentVersion(ks[i]));
        proof {
            assert(ks@.take(i + 1).map_values(|k: EmbassyCrates| Query::ComponentVersion(k))
                =~= ks@.take(i as int).map_values(|k: EmbassyCrates| Query::ComponentVersion(k)).push(
                Query::ComponentVersion(ks@[i as int]),
            ));
        }
        i = i + 1;
    }
    proof {
        assert(ks@.take(ks.len() as int) =~= ks@);
        assert(r@ =~= queries_of(cfg@));
    }
    r
}

/// Metadata after recording answer `a` to read `q`.
pub open spec fn record_answer(m: MetadataModel, q: Query, a: Seq<char>) -> MetadataModel {
    match q {
        Query::LatestCommit => MetadataModel { commit: Some(a), ..m },
        Query::ToolchainChannel => MetadataModel { channel: a, ..m },
        Query::ComponentVersion(k) => MetadataModel {
            versions: m.versions.push((component_name(k), a)),
            ..m
        },
    }
}

/// Metadata after recording the answers to a sequence of reads, in order.
pub open spec fn record_answers(m: MetadataModel, qs: Seq<Query>, answers: Seq<Seq<char>>) -> MetadataModel
    decreases qs.len(),
{
    if qs.len() == 0 || answers.len() == 0 {
        m
    } else {
        record_answers(record_answer(m, qs[0], answers[0]), qs.drop_first(), answers.drop_first())
    }
}

/// Metadata with nothing resolved yet.
pub open spec fn empty_metadata() -> MetadataModel {
    MetadataModel { commit: None, channel: Seq::empty(), versions: Seq::empty() }
}

impl ResolvedMetadata {
    /// Metadata with nothing resolved yet.
    pub fn empty() -> (r: Self)
        ensures
            r@ == empty_metadata(),
    {
        let r = ResolvedMetadata { commit: None, channel: String::new(), versions: Vec::new() };
        proof {
            assert(r@.versions =~= Seq::<(Seq<char>, Seq<char>)>::empty());
            assert(r@.channel =~= Seq::<char>::empty());
        }
        r
    }

    /// Records the answer to one read.
    pub fn record(&mut self, query: Query, answer: String)
        ensures
            final(self)@ == record_answer(old(self)@, query, answer@),
    {
        match query {
            Query::LatestCommit => {
                self.commit = Some(answer);
            },
            Query::ToolchainChannel => {
                self.channel = answer;
            },
            Query::ComponentVersion(k) => {
                let name = String::from_str(k.name());
                self.versions.push((name, answer));
                proof {
                    assert(final(self)@.versions =~= old(self)@.versions.push((component_name(k), answer@)));
                }
            },
        }
    }
}

/// `s` with each hyphen replaced by an underscore.
pub open spec fn underscored(s: Seq<char>) -> Seq<char> {
    s.map_values(|c: char| if c == '-' { '_' } else { c })
}

fn replace_hyphens(s: &str) -> (r: String)
    ensures
        r@ == underscored(s@),
{
    let chars = crate::text::to_chars(s);
    let n = chars.len();
    let mut out = String::new();
    let mut i: usize = 0;
    while i < n
        invariant
            n == s@.len(),
            chars@ == s@,
            0 <= i <= n,
            out@ == underscored(s@.take(i as int)),
        decreases n - i,
    {
        let c = chars[i];
        push_char(&mut out, if c == '-' { '_' } else { c });
        proof {
            assert(underscored(s@.take(i + 1)) =~= underscored(s@.take(i as int)).push(
                if c == '-' { '_' } else { c },
            ));
        }
        i = i + 1;
    }
    proof {
        assert(s@.take(n as int) =~= s@);
    }
    out
}

pub const CARGO_CONFIG_RUNNER: &'static str = "[target.'cfg(all(target_arch = \"arm\", target_os = \"none\"))']\nrunner = \"probe-run --chip ";
pub const CARGO_CONFIG_BUILD: &'static str = " --speed 1000 --connect-under-reset\"\n\n[build]\ntarget = \"";
pub const CARGO_CONFIG_ENV: &'static str = "\"\n\n[env]\nDEFMT_LOG = \"trace\"";

pub const VSCODE_SETTINGS: &'static str = "{\n    \"rust-analyzer.cargo.target\": \"thumbv7em-none-eabihf\",\n    \"rust-analyzer.checkOnSave.allTargets\": false\n}";

pub const MAIN_RS_HEAD: &'static str = "#![no_std]\n#![no_main]\n#![feature(type_alias_impl_trait)]\n\nuse defmt::*;\nuse embassy_executor::Spawner;\nuse embassy_time::{Duration, Timer};\nuse {defmt_rtt as _, panic_probe as _};\n\n#[embassy_executor::main]\nasync fn main(_spawner: Spawner) {\n    let p = ";
pub const MAIN_RS_TAIL: &'static str = "::init(Default::default());\n\n    info!(\"Hello World!\");\n\n    loop {\n        Timer::after(Duration::from_millis(500)).await;\n        info!(\"Hello!\");\n    }\n}";

pub const GITIGNORE: &'static str = "/target";

pub const BUILD_RS: &'static str = "fn main() {\n    println!(\"cargo:rustc-link-arg-bins=--nmagic\");\n    println!(\"cargo:rustc-link-arg-bins=-Tlink.x\");\n    println!(\"cargo:rustc-link-arg-bins=-Tdefmt.x\");\n}";

pub const LIB_RS: &'static str = "#![no_std]";

pub const LIB_MANIFEST: &'static str = "[package]\nname = \"my_lib\"\nversion = \"0.1.0\"\nedition = \"2021\"\n\n[dependencies]";

pub const APP_MANIFEST_HEAD: &'static str = "[package]\nname = \"";
pub const APP_MANIFEST_DEPS: &'static str = "\"\nversion = \"0.1.0\"\nedition = \"2021\"\n\n[dependencies]\n";
pub const APP_MANIFEST_TAIL: &'static str = "\n\npanic-probe = { version = \"0.3\" }\n\ndefmt = { version = \"0.3\" }\ndefmt-rtt = { version = \"0.4\" }\n\ncortex-m = { version = \"0.7.6\", features = [\"critical-section-single-core\"] }\ncortex-m-rt = \"0.7.0\"\n\nfutures = { version = \"0.3.17\", default-features = false, features = [\"async-await\"] }\n\n";

pub const WORKSPACE_MANIFEST_HEAD: &'static str = "[workspace]\nmembers = [\"crates/*\"]\ndefault-members = [\"crates/app\"]\nresolver = \"2\"\n\n[workspace.dependencies]\n";
pub const WORKSPACE_MANIFEST_GAP: &'static str = "\n\n";

pub const TOOLCHAIN_HEAD: &'static str = "[toolchain]\nchannel = \"";
pub const TOOLCHAIN_TARGETS: &'static str = "\"\ncomponents = [ \"rust-src\", \"rustfmt\", \"llvm-tools\" ]\ntargets = [ \"";
pub const TOOLCHAIN_TAIL: &'static str = "\" ]";

pub const VERSION_OPEN: &'static str = " = { version = \"";
pub const WORKSPACE_DEPENDENCY: &'static str = " = { workspace = true }";
pub const LINE_BREAK: &'static str = "\n";

pub const STM32_FEATURES_HEAD: &'static str = "\", features = [\"nightly\", \"defmt\", \"time-driver-any\", \"";
pub const STM32_FEATURES_TAIL: &'static str = "\", \"memory-x\", \"exti\"] }";
pub const NRF_FEATURES_HEAD: &'static str = "\", features = [\"nightly\", \"defmt\", \"";
pub const NRF_FEATURES_TAIL: &'static str = "\", \"time-driver-rtc1\", \"gpiote\"] }";
pub const RP_FEATURES: &'static str = "\", features = [\"defmt\", \"nightly\", \"time-driver\"] }";
pub const EXECUTOR_FEATURES: &'static str = "\", features = [\"nightly\", \"arch-cortex-m\", \"executor-thread\", \"integrated-timers\"] }";
pub const TIME_FEATURES: &'static str = "\", features = [\"defmt\", \"defmt-timestamp-uptime\", \"tick-hz-32_768\"] }";
pub const SYNC_FEATURES: &'static str = "\", features = [\"defmt\"] }";
pub const FUTURES_FEATURES: &'static str = "\" }";

pub const PATCH_HEADER: &'static str = "[patch.crates-io]";
pub const GIT_SOURCE: &'static str = " = { git = \"https://github.com/embassy-rs/embassy\"";
pub const REV_OPEN: &'static str = ", rev = \"";
pub const REV_CLOSE: &'static str = "\"";
pub const ENTRY_CLOSE: &'static str = " }";

/// The build configuration: the runner for the MCU and the target triple.
pub open spec fn cargo_config(c: ConfigModel) -> Seq<char> {
    CARGO_CONFIG_RUNNER@ + c.mcu + CARGO_CONFIG_BUILD@ + c.target + CARGO_CONFIG_ENV@
}

/// The application's entry point, which initialises the vendor's hardware support.
pub open spec fn main_rs(c: ConfigModel) -> Seq<char> {
    MAIN_RS_HEAD@ + underscored(component_name(vendor_component(c.vendor))) + MAIN_RS_TAIL@
}

/// The toolchain descriptor: the resolved channel and the target triple.
pub open spec fn toolchain_file(c: ConfigModel, m: MetadataModel) -> Seq<char> {
    TOOLCHAIN_HEAD@ + m.channel + TOOLCHAIN_TARGETS@ + c.target + TOOLCHAIN_TAIL@
}

/// The dependency declaration of the vendor's component, with its version and features.
pub open spec fn vendor_dependency(c: ConfigModel, m: MetadataModel) -> Seq<char> {
    let k = vendor_component(c.vendor);
    let head = component_name(k) + VERSION_OPEN@ + version(m, k);
    match c.vendor {
        Vendor::St => head + STM32_FEATURES_HEAD@ + c.mcu + STM32_FEATURES_TAIL@,
        Vendor::Nrf => head + NRF_FEATURES_HEAD@ + c.mcu + NRF_FEATURES_TAIL@,
        Vendor::Rp => head + RP_FEATURES@,
    }
}

/// The dependency declaration of a default component, with its version and features.
pub open spec fn default_dependency(m: MetadataModel, k: EmbassyCrates) -> Seq<char> {
    let tail = match k {
        EmbassyCrates::Executor => EXECUTOR_FEATURES@,
        EmbassyCrates::Time => TIME_FEATURES@,
        EmbassyCrates::Sync => SYNC_FEATURES@,
        _ => FUTURES_FEATURES@,
    };
    component_name(k) + VERSION_OPEN@ + version(m, k) + tail
}

/// The versioned dependency declarations of a package at the root of the
/// project: the vendor's component, then the defaults, one per line.
pub open spec fn root_dependencies(c: ConfigModel, m: MetadataModel) -> Seq<char> {
    vendor_dependency(c, m) + LINE_BREAK@ + default_dependency(m, EmbassyCrates::Executor)
        + LINE_BREAK@ + default_dependency(m, EmbassyCrates::Time) + LINE_BREAK@
        + default_dependency(m, EmbassyCrates::Sync) + LINE_BREAK@ + default_dependency(
        m,
        EmbassyCrates::Futures,
    )
}

/// The dependency declarations of a workspace member, which take their
/// versions from the workspace.
pub open spec fn member_dependencies(c: ConfigModel) -> Seq<char> {
    component_name(vendor_component(c.vendor)) + WORKSPACE_DEPENDENCY@ + LINE_BREAK@
        + component_name(EmbassyCrates::Executor) + WORKSPACE_DEPENDENCY@ + LINE_BREAK@
        + component_name(EmbassyCrates::Time) + WORKSPACE_DEPENDENCY@ + LINE_BREAK@
        + component_name(EmbassyCrates::Sync) + WORKSPACE_DEPENDENCY@ + LINE_BREAK@
        + component_name(EmbassyCrates::Futures) + WORKSPACE_DEPENDENCY@
}

/// The components whose source the override block redirects to the upstream repository.
pub open spec fn overridden_components(v: Vendor) -> Seq<EmbassyCrates> {
    seq![
        vendor_component(v),
        EmbassyCrates::Executor,
        EmbassyCrates::Time,
        EmbassyCrates::Sync,
        EmbassyCrates::Futures,
    ]
}

/// The revision reference of an override entry: none, or the commit.
pub open spec fn revision_part(rev: Option<Seq<char>>) -> Seq<char> {
    match rev {
        Some(h) => REV_OPEN@ + h + REV_CLOSE@,
        None => Seq::empty(),
    }
}

/// One line of the override block: component `k` taken from the upstream
/// repository, at revision `rev` when there is one.
pub open spec fn override_entry(k: EmbassyCrates, rev: Option<Seq<char>>) -> Seq<char> {
    LINE_BREAK@ + component_name(k) + GIT_SOURCE@ + revision_part(rev) + ENTRY_CLOSE@
}

pub open spec fn override_entries(ks: Seq<EmbassyCrates>, rev: Option<Seq<char>>) -> Seq<char>
    decreases ks.len(),
{
    if ks.len() == 0 {
        Seq::empty()
    } else {
        override_entries(ks.take(ks.len() - 1), rev) + override_entry(ks.last(), rev)
    }
}

/// The block that redirects the framework's components to the upstream repository.
pub open spec fn override_block(v: Vendor, rev: Option<Seq<char>>) -> Seq<char> {
    PATCH_HEADER@ + override_entries(overridden_components(v), rev)
}

/// The commit that generated manifests pin to: none when pinning is off.
pub open spec fn pinned_revision(c: ConfigModel, m: MetadataModel) -> Option<Seq<char>> {
    if c.no_pin {
        None
    } else {
        m.commit
    }
}

/// The application package's manifest. At the project root it declares
/// versioned dependencies and the override block; as a workspace member it
/// takes its dependencies from the workspace and has no override block.
pub open spec fn app_manifest(c: ConfigModel, m: MetadataModel) -> Seq<char> {
    let head = APP_MANIFEST_HEAD@ + c.name + APP_MANIFEST_DEPS@;
    if c.workspace {
        head + member_dependencies(c) + APP_MANIFEST_TAIL@
    } else {
        head + root_dependencies(c, m) + APP_MANIFEST_TAIL@ + override_block(
            c.vendor,
            pinned_revision(c, m),
        )
    }
}

/// The workspace-level manifest: members, shared dependencies and the override block.
pub open spec fn workspace_manifest(c: ConfigModel, m: MetadataModel) -> Seq<char> {
    WORKSPACE_MANIFEST_HEAD@ + root_dependencies(c, m) + WORKSPACE_MANIFEST_GAP@ + override_block(
        c.vendor,
        pinned_revision(c, m),
    )
}

fn cargo_config_text(cfg: &GeneratorConfig) -> (r: String)
    ensures
        r@ == cargo_config(cfg@),
{
    let mut s = String::from_str(CARGO_CONFIG_RUNNER);
    s.append(cfg.mcu.as_str());
    s.append(CARGO_CONFIG_BUILD);
    s.append(cfg.target.as_str());
    s.append(CARGO_CONFIG_ENV);
    s
}

fn main_rs_text(cfg: &GeneratorConfig) -> (r: String)
    ensures
        r@ == main_rs(cfg@),
{
    let ident = replace_hyphens(crate::components::vendor_to_crate(cfg.vendor));
    let mut s = String::from_str(MAIN_RS_HEAD);
    s.append(ident.as_str());
    s.append(MAIN_RS_TAIL);
    s
}

fn toolchain_text(cfg: &GeneratorConfig, channel: &str) -> (r: String)
    ensures
        r@ == TOOLCHAIN_HEAD@ + channel@ + TOOLCHAIN_TARGETS@ + cfg.target@ + TOOLCHAIN_TAIL@,
{
    let mut s = String::from_str(TOOLCHAIN_HEAD);
    s.append(channel);
    s.append(TOOLCHAIN_TARGETS);
    s.append(cfg.target.as_str());
    s.append(TOOLCHAIN_TAIL);
    s
}

/// Whether every required component has a recorded version.
pub open spec fn versions_resolved(v: Vendor, m: MetadataModel) -> bool {
    forall|i: int|
        0 <= i < required_components_of(v).len() ==> (#[trigger] version_of(
            m.versions,
            component_name(required_components_of(v)[i]),
        )) is Some
}

/// Whether the metadata holds all that the project for `c` needs.
pub open spec fn metadata_ready(c: ConfigModel, m: MetadataModel) -> bool {
    &&& versions_resolved(c.vendor, m)
    &&& !c.no_pin ==> m.commit is Some
}

proof fn lemma_ready_versions(v: Vendor, m: MetadataModel)
    requires
        versions_resolved(v, m),
    ensures
        version_of(m.versions, component_name(EmbassyCrates::Executor)) is Some,
        version_of(m.versions, component_name(EmbassyCrates::Time)) is Some,
        version_of(m.versions, component_name(EmbassyCrates::Sync)) is Some,
        version_of(m.versions, component_name(EmbassyCrates::Futures)) is Some,
        version_of(m.versions, component_name(vendor_component(v))) is Some,
{
    let ks = required_components_of(v);
    assert(ks[0] == EmbassyCrates::Executor);
    assert(ks[1] == EmbassyCrates::Time);
    assert(ks[2] == EmbassyCrates::Sync);
    assert(ks[3] == EmbassyCrates::Futures);
    assert(ks[4] == vendor_component(v));
}

fn version_text(md: &ResolvedMetadata, k: EmbassyCrates) -> (r: &String)
    requires
        version_of(md@.versions, component_name(k)) is Some,
    ensures
        r@ == version(md@, k),
{
    md.version(k).unwrap()
}

fn vendor_dependency_text(cfg: &GeneratorConfig, md: &ResolvedMetadata) -> (r: String)
    requires
        versions_resolved(cfg.vendor, md@),
    ensures
        r@ == vendor_dependency(cfg@, md@),
{
    proof {
        lemma_ready_versions(cfg.vendor, md@);
    }
    let k = match cfg.vendor {
        Vendor::St => EmbassyCrates::Stm32,
        Vendor::Nrf => EmbassyCrates::Nrf,
        Vendor::Rp => EmbassyCrates::Rp,
    };
    let mut s = String::from_str(k.name());
    s.append(VERSION_OPEN);
    s.append(version_text(md, k).as_str());
    match cfg.vendor {
        Vendor::St => {
            s.append(STM32_FEATURES_HEAD);
            s.append(cfg.mcu.as_str());
            s.append(STM32_FEATURES_TAIL);
        },
        Vendor::Nrf => {
            s.append(NRF_FEATURES_HEAD);
            s.append(cfg.mcu.as_str());
            s.append(NRF_FEATURES_TAIL);
        },
        Vendor::Rp => {
            s.append(RP_FEATURES);
        },
    }
    s
}

fn default_dependency_text(md: &ResolvedMetadata, k: EmbassyCrates) -> (r: String)
    requires
        version_of(md@.versions, component_name(k)) is Some,
    ensures
        r@ == default_dependency(md@, k),
{
    let mut s = String::from_str(k.name());
    s.append(VERSION_OPEN);
    s.append(version_text(md, k).as_str());
    let tail = match k {
        EmbassyCrates::Executor => EXECUTOR_FEATURES,
        EmbassyCrates::Time => TIME_FEATURES,
        EmbassyCrates::Sync => SYNC_FEATURES,
        _ => FUTURES_FEATURES,
    };
    s.append(tail);
    s
}

fn member_dependency_line(s: &mut String, k: EmbassyCrates, last: bool)
    ensures
        final(s)@ == old(s)@ + component_name(k) + WORKSPACE_DEPENDENCY@ + (if last {
            Seq::empty()
        } else {
            LINE_BREAK@
        }),
{
    s.append(k.name());
    s.append(WORKSPACE_DEPENDENCY);
    if !last {
        s.append(LINE_BREAK);
    } else {
        proof {
            assert(final(s)@ =~= old(s)@ + component_name(k) + WORKSPACE_DEPENDENCY@ + Seq::<char>::empty());
        }
    }
}

/// The dependency declarations of the application package: versioned at the
/// project root, taken from the workspace in a member package.
fn crate_declaration(cfg: &GeneratorConfig, md: &ResolvedMetadata, is_crate_root: bool) -> (r: String)
    requires
        versions_resolved(cfg.vendor, md@),
    ensures
        r@ == (if is_crate_root {
            root_dependencies(cfg@, md@)
        } else {
            member_dependencies(cfg@)
        }),
{
    proof {
        lemma_ready_versions(cfg.vendor, md@);
    }
    if is_crate_root {
        let mut s = vendor_dependency_text(cfg, md);
        s.append(LINE_BREAK);
        s.append(default_dependency_text(md, EmbassyCrates::Executor).as_str());
        s.append(LINE_BREAK);
        s.append(default_dependency_text(md, EmbassyCrates::Time).as_str());
        s.append(LINE_BREAK);
        s.append(default_dependency_text(md, EmbassyCrates::Sync).as_str());
        s.append(LINE_BREAK);
        s.append(default_dependency_text(md, EmbassyCrates::Futures).as_str());
        s
    } else {
        let mut s = String::new();
        member_dependency_line(&mut s, vendor_component_exec(cfg.vendor), false);
        member_dependency_line(&mut s, EmbassyCrates::Executor, false);
        member_dependency_line(&mut s, EmbassyCrates::Time, false);
        member_dependency_line(&mut s, EmbassyCrates::Sync, false);
        member_dependency_line(&mut s, EmbassyCrates::Futures, true);
        proof {
            assert(s@ =~= member_dependencies(cfg@));
        }
        s
    }
}

fn vendor_component_exec(v: Vendor) -> (r: EmbassyCrates)
    ensures
        r == vendor_component(v),
{
    match v {
        Vendor::St => EmbassyCrates::Stm32,
        Vendor::Nrf => EmbassyCrates::Nrf,
        Vendor::Rp => EmbassyCrates::Rp,
    }
}

fn override_entry_text(k: EmbassyCrates, rev: Option<&String>) -> (r: String)
    ensures
        r@ == override_entry(k, ref_view(rev)),
{
    let mut s = String::from_str(LINE_BREAK);
    s.append(k.name());
    s.append(GIT_SOURCE);
    match rev {
        Some(h) => {
            let mut part = String::from_str(REV_OPEN);
            part.append(h.as_str());
            part.append(REV_CLOSE);
            s.append(part.as_str());
        },
        None => {
            proof {
                assert(s@ =~= s@ + revision_part(None));
            }
        },
    }
    s.append(ENTRY_CLOSE);
    s
}

/// The override block: the vendor's component and the defaults, each taken
/// from the upstream repository at the pinned commit, if any.
fn crates_io_patch(cfg: &GeneratorConfig, rev: Option<&String>) -> (r: String)
    ensures
        r@ == override_block(cfg.vendor, ref_view(rev)),
{
    let ks = vec![
        vendor_component_exec(cfg.vendor),
        EmbassyCrates::Executor,
        EmbassyCrates::Time,
        EmbassyCrates::Sync,
        EmbassyCrates::Futures,
    ];
    let ghost r = ref_view(rev);
    let mut s = String::from_str(PATCH_HEADER);
    proof {
        assert(ks@ == overridden_components(cfg.vendor));
        assert(ks@.take(0) =~= Seq::<EmbassyCrates>::empty());
        assert(s@ =~= PATCH_HEADER@ + override_entries(ks@.take(0), r));
    }
    let mut i: usize = 0;
    while i < ks.len()
        invariant
            0 <= i <= ks.len(),
            ks@ == overridden_components(cfg.vendor),
            r == ref_view(rev),
            s@ == PATCH_HEADER@ + override_entries(ks@.take(i as int), r),
        decreases ks.len() - i,
    {
        let e = override_entry_text(ks[i], rev);
        s.append(e.as_str());
        proof {
            assert(ks@.take(i + 1).take(i as int) =~= ks@.take(i as int));
            assert(ks@.take(i + 1).last() == ks@[i as int]);
            assert(s@ =~= PATCH_HEADER@ + override_entries(ks@.take(i + 1), r));
        }
        i = i + 1;
    }
    proof {
        assert(ks@.take(5) =~= ks@);
    }
    s
}

pub open spec fn file_node(name: Seq<char>, content: Seq<char>) -> NodeModel {
    NodeModel::File { name, content }
}

pub open spec fn dir_node(name: Seq<char>, children: Seq<NodeModel>) -> NodeModel {
    NodeModel::Dir { name, children }
}

pub open spec fn cargo_dir(c: ConfigModel) -> NodeModel {
    dir_node(".cargo"@, seq![file_node("config.toml"@, cargo_config(c))])
}

pub open spec fn vscode_dir() -> NodeModel {
    dir_node(".vscode"@, seq![file_node("settings.json"@, VSCODE_SETTINGS@)])
}

pub open spec fn app_src_dir(c: ConfigModel) -> NodeModel {
    dir_node("src"@, seq![file_node("main.rs"@, main_rs(c))])
}

pub open spec fn lib_src_dir() -> NodeModel {
    dir_node("src"@, seq![file_node("lib.rs"@, LIB_RS@)])
}

/// The whole project tree for configuration `c` and metadata `m`.
pub open spec fn project_tree(c: ConfigModel, m: MetadataModel) -> NodeModel {
    let gitignore = file_node(".gitignore"@, GITIGNORE@);
    let build_rs = file_node("build.rs"@, BUILD_RS@);
    let app_toml = file_node("Cargo.toml"@, app_manifest(c, m));
    let toolchain = file_node("rust-toolchain.toml"@, toolchain_file(c, m));
    if c.workspace {
        let app = dir_node("app"@, seq![app_src_dir(c), build_rs, app_toml]);
        let lib = dir_node("my_lib"@, seq![lib_src_dir(), file_node("Cargo.toml"@, LIB_MANIFEST@)]);
        dir_node(
            c.name,
            seq![
                cargo_dir(c),
                vscode_dir(),
                dir_node("crates"@, seq![app, lib]),
                gitignore,
                file_node("Cargo.toml"@, workspace_manifest(c, m)),
                toolchain,
            ],
        )
    } else {
        dir_node(
            c.name,
            seq![cargo_dir(c), vscode_dir(), app_src_dir(c), gitignore, build_rs, app_toml, toolchain],
        )
    }
}

/// Failures of tree construction.
#[derive(Clone, Copy, Debug, PartialEq, Eq, Structural)]
pub enum TemplateError {
    /// A required component has no recorded version.
    MissingVersion,
    /// Pinning is on and no commit was resolved.
    MissingCommit,
}

/// What building the tree for `c` from `m` gives.
pub open spec fn build_result(c: ConfigModel, m: MetadataModel) -> Result<NodeModel, TemplateError> {
    if !versions_resolved(c.vendor, m) {
        Err(TemplateError::MissingVersion)
    } else if !c.no_pin && m.commit is None {
        Err(TemplateError::MissingCommit)
    } else {
        Ok(project_tree(c, m))
    }
}

proof fn lemma_models_of(ts: Seq<Template>, ms: Seq<NodeModel>)
    requires
        ts.len() == ms.len(),
        forall|i: int| 0 <= i < ts.len() ==> #[trigger] ts[i]@ == ms[i],
    ensures
        templates_model(ts) == ms,
{
    lemma_templates_model(ts);
    assert forall|i: int| 0 <= i < ts.len() implies templates_model(ts)[i] == ms[i] by {
        assert(ts[i]@ == ms[i]);
    }
    assert(templates_model(ts) =~= ms);
}

fn file(name: &str, content: String) -> (r: Template)
    ensures
        r@ == file_node(name@, content@),
{
    Template::File { name: String::from_str(name), content }
}

fn dir(name: &str, children: Vec<Template>) -> (r: Template)
    ensures
        r@ == dir_node(name@, templates_model(children@)),
{
    Template::Dir { name: String::from_str(name), children }
}

fn dir1(name: &str, a: Template) -> (r: Template)
    ensures
        r@ == dir_node(name@, seq![a@]),
{
    let ghost ms = seq![a@];
    let v = vec![a];
    proof {
        lemma_models_of(v@, ms);
    }
    dir(name, v)
}

impl Template {
    fn dot_cargo(cfg: &GeneratorConfig) -> (r: Template)
        ensures
            r@ == cargo_dir(cfg@),
    {
        dir1(".cargo", file("config.toml", cargo_config_text(cfg)))
    }

    fn dot_vscode() -> (r: Template)
        ensures
            r@ == vscode_dir(),
    {
        dir1(".vscode", file("settings.json", String::from_str(VSCODE_SETTINGS)))
    }

    fn app_src(cfg: &GeneratorConfig) -> (r: Template)
        ensures
            r@ == app_src_dir(cfg@),
    {
        dir1("src", file("main.rs", main_rs_text(cfg)))
    }

    fn dot_gitignore() -> (r: Template)
        ensures
            r@ == file_node(".gitignore"@, GITIGNORE@),
    {
        file(".gitignore", String::from_str(GITIGNORE))
    }

    fn build_rs() -> (r: Template)
        ensures
            r@ == file_node("build.rs"@, BUILD_RS@),
    {
        file("build.rs", String::from_str(BUILD_RS))
    }

    fn lib_src() -> (r: Template)
        ensures
            r@ == lib_src_dir(),
    {
        dir1("src", file("lib.rs", String::from_str(LIB_RS)))
    }

    fn lib_cargo_toml() -> (r: Template)
        ensures
            r@ == file_node("Cargo.toml"@, LIB_MANIFEST@),
    {
        file("Cargo.toml", String::from_str(LIB_MANIFEST))
    }

    fn app_cargo_toml(cfg: &GeneratorConfig, md: &ResolvedMetadata, rev: Option<&String>) -> (r: Template)
        requires
            versions_resolved(cfg.vendor, md@),
            ref_view(rev) == pinned_revision(cfg@, md@),
        ensures
            r@ == file_node("Cargo.toml"@, app_manifest(cfg@, md@)),
    {
        let mut s = String::from_str(APP_MANIFEST_HEAD);
        s.append(cfg.name.as_str());
        s.append(APP_MANIFEST_DEPS);
        s.append(crate_declaration(cfg, md, !cfg.workspace).as_str());
        s.append(APP_MANIFEST_TAIL);
        if !cfg.workspace {
            s.append(crates_io_patch(cfg, rev).as_str());
        }
        file("Cargo.toml", s)
    }

    fn workspace_cargo_toml(cfg: &GeneratorConfig, md: &ResolvedMetadata, rev: Option<&String>) -> (r: Template)
        requires
            versions_resolved(cfg.vendor, md@),
            ref_view(rev) == pinned_revision(cfg@, md@),
        ensures
            r@ == file_node("Cargo.toml"@, workspace_manifest(cfg@, md@)),
    {
        let mut s = String::from_str(WORKSPACE_MANIFEST_HEAD);
        s.append(crate_declaration(cfg, md, true).as_str());
        s.append(WORKSPACE_MANIFEST_GAP);
        s.append(crates_io_patch(cfg, rev).as_str());
        file("Cargo.toml", s)
    }

    fn rust_toolchain(cfg: &GeneratorConfig, md: &ResolvedMetadata) -> (r: Template)
        ensures
            r@ == file_node("rust-toolchain.toml"@, toolchain_file(cfg@, md@)),
    {
        file("rust-toolchain.toml", toolchain_text(cfg, md.channel.as_str()))
    }

    /// The project tree for a configuration, filled in from resolved metadata.
    pub(crate) fn root(cfg: &GeneratorConfig, md: &ResolvedMetadata, rev: Option<&String>) -> (r: Template)
        requires
            versions_resolved(cfg.vendor, md@),
            ref_view(rev) == pinned_revision(cfg@, md@),
        ensures
            r@ == project_tree(cfg@, md@),
    {
        let c0 = Template::dot_cargo(cfg);
        let c1 = Template::dot_vscode();
        if cfg.workspace {
            let a0 = Template::app_src(cfg);
            let a1 = Template::build_rs();
            let a2 = Template::app_cargo_toml(cfg, md, rev);
            let ghost app_ms = seq![a0@, a1@, a2@];
            let app_children = vec![a0, a1, a2];
            proof {
                lemma_models_of(app_children@, app_ms);
            }
            let app = dir("app", app_children);
            let l0 = Template::lib_src();
            let l1 = Template::lib_cargo_toml();
            let ghost lib_ms = seq![l0@, l1@];
            let lib_children = vec![l0, l1];
            proof {
                lemma_models_of(lib_children@, lib_ms);
            }
            let lib = dir("my_lib", lib_children);
            let ghost crates_ms = seq![app@, lib@];
            let crates_children = vec![app, lib];
            proof {
                lemma_models_of(crates_children@, crates_ms);
            }
            let c2 = dir("crates", crates_children);
            let c3 = Template::dot_gitignore();
            let c4 = Template::workspace_cargo_toml(cfg, md, rev);
            let c5 = Template::rust_toolchain(cfg, md);
            let ghost ms = seq![c0@, c1@, c2@, c3@, c4@, c5@];
            let children = vec![c0, c1, c2, c3, c4, c5];
            proof {
                lemma_models_of(children@, ms);
            }
            Template::Dir { name: cfg.name.clone(), children }
        } else {
            let c2 = Template::app_src(cfg);
            let c3 = Template::dot_gitignore();
            let c4 = Template::build_rs();
            let c5 = Template::app_cargo_toml(cfg, md, rev);
            let c6 = Template::rust_toolchain(cfg, md);
            let ghost ms = seq![c0@, c1@, c2@, c3@, c4@, c5@, c6@];
            let children = vec![c0, c1, c2, c3, c4, c5, c6];
            proof {
                lemma_models_of(children@, ms);
            }
            Template::Dir { name: cfg.name.clone(), children }
        }
    }
}

/// A project tree built for one configuration, ready to be materialised.
pub struct TemplateBuilder {
    root: Template,
    cfg: GeneratorConfig,
}

impl TemplateBuilder {
    /// The tree this builder holds.
    pub closed spec fn tree(&self) -> NodeModel {
        self.root@
    }

    /// The configuration the tree was built for.
    pub closed spec fn config(&self) -> ConfigModel {
        self.cfg@
    }

    /// Builds the project tree for `cfg` from resolved metadata. Fails when a
    /// required component has no version, or when pinning is on and no
    /// commit was resolved.
    pub fn new(cfg: GeneratorConfig, md: &ResolvedMetadata) -> (r: Result<Self, TemplateError>)
        ensures
            r matches Ok(b) ==> build_result(cfg@, md@) == Ok::<NodeModel, TemplateError>(b.tree())
                && b.config() == cfg@,
            r matches Err(e) ==> build_result(cfg@, md@) == Err::<NodeModel, TemplateError>(e),
    {
        let ks = crate::components::required_components(cfg.vendor);
        let mut i: usize = 0;
        while i < ks.len()
            invariant
                0 <= i <= ks.len(),
                ks@ == required_components_of(cfg.vendor),
                forall|j: int|
                    0 <= j < i ==> (#[trigger] version_of(
                        md@.versions,
                        component_name(required_components_of(cfg.vendor)[j]),
                    )) is Some,
            decreases ks.len() - i,
        {
            if md.version(ks[i]).is_none() {
                return Err(TemplateError::MissingVersion);
            }
            i = i + 1;
        }
        let rev: Option<&String> = if cfg.no_pin {
            None
        } else {
            match &md.commit {
                Some(h) => Some(h),
                None => {
                    return Err(TemplateError::MissingCommit);
                },
            }
        };
        let root = Template::root(&cfg, md, rev);
        Ok(TemplateBuilder { root, cfg })
    }

    /// The instructions that materialise the project below the current
    /// directory, in the order they must run.
    pub fn build(&self) -> (r: Vec<TemplateItem>)
        ensures
            items_model(r@) == flatten_node(self.tree(), "."@),
    {
        self.root.flatten(".")
    }

    /// The project's root directory, relative to the current directory.
    pub fn root_path(&self) -> (r: String)
        ensures
            r@ == self.config().name,
    {
        self.cfg.name.clone()
    }
}

/// Two trees built from equal configurations and equal metadata are equal,
/// and so flatten to the same instructions.
pub proof fn lemma_build_deterministic(
    c1: ConfigModel,
    m1: MetadataModel,
    c2: ConfigModel,
    m2: MetadataModel,
    base: Seq<char>,
)
    requires
        c1 == c2,
        m1 == m2,
    ensures
        build_result(c1, m1) == build_result(c2, m2),
        build_result(c1, m1) is Ok ==> flatten_node(build_result(c1, m1)->Ok_0, base)
            == flatten_node(build_result(c2, m2)->Ok_0, base),
{
}

proof fn lemma_files_named_single(n: NodeModel, name: Seq<char>)
    ensures
        files_named_in(seq![n], name) == files_named(n, name),
{
    lemma_files_named_push(Seq::empty(), n, name);
    assert(Seq::<NodeModel>::empty().push(n) =~= seq![n]);
}

spec fn same_name(a: Seq<char>, b: Seq<char>) -> nat {
    if a == b {
        1
    } else {
        0
    }
}

proof fn lemma_tree_files_named(c: ConfigModel, m: MetadataModel, name: Seq<char>)
    ensures
        files_named(project_tree(c, m), name) == if c.workspace {
            same_name("config.toml"@, name) + same_name("settings.json"@, name) + same_name(
                "main.rs"@,
                name,
            ) + same_name("build.rs"@, name) + same_name("Cargo.toml"@, name) + same_name(
                "lib.rs"@,
                name,
            ) + same_name("Cargo.toml"@, name) + same_name(".gitignore"@, name) + same_name(
                "Cargo.toml"@,
                name,
            ) + same_name("rust-toolchain.toml"@, name)
        } else {
            same_name("config.toml"@, name) + same_name("settings.json"@, name) + same_name(
                "main.rs"@,
                name,
            ) + same_name(".gitignore"@, name) + same_name("build.rs"@, name) + same_name(
                "Cargo.toml"@,
                name,
            ) + same_name("rust-toolchain.toml"@, name)
        },
{
    let gitignore = file_node(".gitignore"@, GITIGNORE@);
    let build_rs = file_node("build.rs"@, BUILD_RS@);
    let app_toml = file_node("Cargo.toml"@, app_manifest(c, m));
    let toolchain = file_node("rust-toolchain.toml"@, toolchain_file(c, m));
    lemma_files_named_single(file_node("config.toml"@, cargo_config(c)), name);
    lemma_files_named_single(file_node("settings.json"@, VSCODE_SETTINGS@), name);
    lemma_files_named_single(file_node("main.rs"@, main_rs(c)), name);
    lemma_files_named_single(file_node("lib.rs"@, LIB_RS@), name);
    if c.workspace {
        let lib_toml = file_node("Cargo.toml"@, LIB_MANIFEST@);
        let app = dir_node("app"@, seq![app_src_dir(c), build_rs, app_toml]);
        let lib = dir_node("my_lib"@, seq![lib_src_dir(), lib_toml]);
        let crates = dir_node("crates"@, seq![app, lib]);
        let ws_toml = file_node("Cargo.toml"@, workspace_manifest(c, m));
        let top = seq![cargo_dir(c), vscode_dir(), crates, gitignore, ws_toml, toolchain];
        let app_cs = seq![app_src_dir(c), build_rs, app_toml];
        lemma_files_named_push(Seq::empty(), app_src_dir(c), name);
        lemma_files_named_push(app_cs.take(1), build_rs, name);
        lemma_files_named_push(app_cs.take(2), app_toml, name);
        assert(Seq::<NodeModel>::empty().push(app_src_dir(c)) =~= app_cs.take(1));
        assert(app_cs.take(1).push(build_rs) =~= app_cs.take(2));
        assert(app_cs.take(2).push(app_toml) =~= app_cs);
        lemma_files_named_push(Seq::empty(), lib_src_dir(), name);
        lemma_files_named_push(seq![lib_src_dir()], lib_toml, name);
        assert(Seq::<NodeModel>::empty().push(lib_src_dir()) =~= seq![lib_src_dir()]);
        assert(seq![lib_src_dir()].push(lib_toml) =~= seq![lib_src_dir(), lib_toml]);
        lemma_files_named_push(Seq::empty(), app, name);
        lemma_files_named_push(seq![app], lib, name);
        assert(Seq::<NodeModel>::empty().push(app) =~= seq![app]);
        assert(seq![app].push(lib) =~= seq![app, lib]);
        lemma_files_named_push(Seq::empty(), cargo_dir(c), name);
        lemma_files_named_push(top.take(1), vscode_dir(), name);
        lemma_files_named_push(top.take(2), crates, name);
        lemma_files_named_push(top.take(3), gitignore, name);
        lemma_files_named_push(top.take(4), ws_toml, name);
        lemma_files_named_push(top.take(5), toolchain, name);
        assert(Seq::<NodeModel>::empty().push(cargo_dir(c)) =~= top.take(1));
        assert(top.take(1).push(vscode_dir()) =~= top.take(2));
        assert(top.take(2).push(crates) =~= top.take(3));
        assert(top.take(3).push(gitignore) =~= top.take(4));
        assert(top.take(4).push(ws_toml) =~= top.take(5));
        assert(top.take(5).push(toolchain) =~= top);
    } else {
        let top = seq![cargo_dir(c), vscode_dir(), app_src_dir(c), gitignore, build_rs, app_toml, toolchain];
        lemma_files_named_push(Seq::empty(), cargo_dir(c), name);
        lemma_files_named_push(top.take(1), vscode_dir(), name);
        lemma_files_named_push(top.take(2), app_src_dir(c), name);
        lemma_files_named_push(top.take(3), gitignore, name);
        lemma_files_named_push(top.take(4), build_rs, name);
        lemma_files_named_push(top.take(5), app_toml, name);
        lemma_files_named_push(top.take(6), toolchain, name);
        assert(Seq::<NodeModel>::empty().push(cargo_dir(c)) =~= top.take(1));
        assert(top.take(1).push(vscode_dir()) =~= top.take(2));
        assert(top.take(2).push(app_src_dir(c)) =~= top.take(3));
        assert(top.take(3).push(gitignore) =~= top.take(4));
        assert(top.take(4).push(build_rs) =~= top.take(5));
        assert(top.take(5).push(app_toml) =~= top.take(6));
        assert(top.take(6).push(toolchain) =~= top);
    }
}

/// The number of manifests and library sources in a project: a workspace has
/// the workspace-level manifest, one manifest per package (application and
/// library) and one library source; a single package has one manifest and no
/// library source.
pub proof fn lemma_manifest_count(c: ConfigModel, m: MetadataModel)
    ensures
        c.workspace ==> files_named(project_tree(c, m), "Cargo.toml"@) == 3 && files_named(
            project_tree(c, m),
            "lib.rs"@,
        ) == 1,
        !c.workspace ==> files_named(project_tree(c, m), "Cargo.toml"@) == 1 && files_named(
            project_tree(c, m),
            "lib.rs"@,
        ) == 0,
{
    reveal_strlit("Cargo.toml");
    reveal_strlit("lib.rs");
    reveal_strlit("config.toml");
    reveal_strlit("settings.json");
    reveal_strlit("main.rs");
    reveal_strlit(".gitignore");
    reveal_strlit("build.rs");
    reveal_strlit("rust-toolchain.toml");
    lemma_tree_files_named(c, m, "Cargo.toml"@);
    lemma_tree_files_named(c, m, "lib.rs"@);
    assert("config.toml"@.len() != "Cargo.toml"@.len());
    assert("settings.json"@.len() != "Cargo.toml"@.len());
    assert("main.rs"@.len() != "Cargo.toml"@.len());
    assert("build.rs"@.len() != "Cargo.toml"@.len());
    assert("lib.rs"@.len() != "Cargo.toml"@.len());
    assert("rust-toolchain.toml"@.len() != "Cargo.toml"@.len());
    assert(".gitignore"@[0] != "Cargo.toml"@[0]);
    assert("config.toml"@.len() != "lib.rs"@.len());
    assert("settings.json"@.len() != "lib.rs"@.len());
    assert("main.rs"@.len() != "lib.rs"@.len());
    assert("build.rs"@.len() != "lib.rs"@.len());
    assert(".gitignore"@.len() != "lib.rs"@.len());
    assert("rust-toolchain.toml"@.len() != "lib.rs"@.len());
}

/// The manifest at the project root: the workspace-level one, or the single
/// package's.
pub open spec fn root_manifest(c: ConfigModel, m: MetadataModel) -> Seq<char> {
    if c.workspace {
        workspace_manifest(c, m)
    } else {
        app_manifest(c, m)
    }
}

/// Pinning. The manifest at the project root ends with the override block,
/// and a workspace member's manifest has none. The block lists each
/// overridden component once. With pinning off no entry names a revision;
/// with it on each entry names the resolved commit, once.
pub proof fn lemma_override_pinning(c: ConfigModel, m: MetadataModel)
    requires
        metadata_ready(c, m),
    ensures
        project_tree(c, m)->Dir_children[if c.workspace { 4int } else { 5int }] == file_node(
            "Cargo.toml"@,
            root_manifest(c, m),
        ),
        root_manifest(c, m) == (if c.workspace {
            WORKSPACE_MANIFEST_HEAD@ + root_dependencies(c, m) + WORKSPACE_MANIFEST_GAP@
        } else {
            APP_MANIFEST_HEAD@ + c.name + APP_MANIFEST_DEPS@ + root_dependencies(c, m)
                + APP_MANIFEST_TAIL@
        }) + override_block(c.vendor, pinned_revision(c, m)),
        c.workspace ==> app_manifest(c, m) == APP_MANIFEST_HEAD@ + c.name + APP_MANIFEST_DEPS@
            + member_dependencies(c) + APP_MANIFEST_TAIL@,
        ({
            let r = pinned_revision(c, m);
            let ks = overridden_components(c.vendor);
            override_block(c.vendor, r) == PATCH_HEADER@ + override_entry(ks[0], r)
                + override_entry(ks[1], r) + override_entry(ks[2], r) + override_entry(ks[3], r)
                + override_entry(ks[4], r)
        }),
        c.no_pin ==> forall|k: EmbassyCrates|
            #[trigger] override_entry(k, pinned_revision(c, m)) == LINE_BREAK@ + component_name(k)
                + GIT_SOURCE@ + ENTRY_CLOSE@,
        !c.no_pin ==> forall|k: EmbassyCrates|
            #[trigger] override_entry(k, pinned_revision(c, m)) == LINE_BREAK@ + component_name(k)
                + GIT_SOURCE@ + REV_OPEN@ + m.commit->Some_0 + REV_CLOSE@ + ENTRY_CLOSE@,
{
    let r = pinned_revision(c, m);
    lemma_override_block_entries(c.vendor, r);
    assert forall|k: EmbassyCrates| true implies #[trigger] override_entry(k, r) == LINE_BREAK@
        + component_name(k) + GIT_SOURCE@ + revision_part(r) + ENTRY_CLOSE@ by {}
    if c.no_pin {
        assert forall|k: EmbassyCrates|
            #[trigger] override_entry(k, r) == LINE_BREAK@ + component_name(k) + GIT_SOURCE@
                + ENTRY_CLOSE@ by {
            lemma_override_entry_shape(k, r);
        }
    } else {
        assert forall|k: EmbassyCrates|
            #[trigger] override_entry(k, r) == LINE_BREAK@ + component_name(k) + GIT_SOURCE@
                + REV_OPEN@ + m.commit->Some_0 + REV_CLOSE@ + ENTRY_CLOSE@ by {
            lemma_override_entry_shape(k, r);
        }
    }
}

proof fn lemma_override_entry_shape(k: EmbassyCrates, r: Option<Seq<char>>)
    ensures
        r is None ==> override_entry(k, r) == LINE_BREAK@ + component_name(k) + GIT_SOURCE@
            + ENTRY_CLOSE@,
        r matches Some(h) ==> override_entry(k, r) == LINE_BREAK@ + component_name(k) + GIT_SOURCE@
            + REV_OPEN@ + h + REV_CLOSE@ + ENTRY_CLOSE@,
{
    let head = LINE_BREAK@ + component_name(k) + GIT_SOURCE@;
    match r {
        None => {
            assert(head + revision_part(r) =~= head);
        },
        Some(h) => {
            assert(head + revision_part(r) + ENTRY_CLOSE@ =~= head + REV_OPEN@ + h + REV_CLOSE@
                + ENTRY_CLOSE@);
        },
    }
}

proof fn lemma_override_block_entries(v: Vendor, r: Option<Seq<char>>)
    ensures
        ({
            let ks = overridden_components(v);
            override_block(v, r) == PATCH_HEADER@ + override_entry(ks[0], r) + override_entry(
                ks[1],
                r,
            ) + override_entry(ks[2], r) + override_entry(ks[3], r) + override_entry(ks[4], r)
        }),
{
    let ks = overridden_components(v);
    assert(ks.take(5) =~= ks);
    assert(ks.take(5).take(4) =~= ks.take(4));
    assert(ks.take(4).take(3) =~= ks.take(3));
    assert(ks.take(3).take(2) =~= ks.take(2));
    assert(ks.take(2).take(1) =~= ks.take(1));
    assert(ks.take(1).take(0) =~= ks.take(0));
    assert(override_entries(ks.take(0), r) == Seq::<char>::empty());
    assert(override_entries(ks.take(1), r) =~= override_entry(ks[0], r));
    assert(ks.take(2).last() == ks[1]);
    assert(ks.take(3).last() == ks[2]);
    assert(ks.take(4).last() == ks[3]);
    assert(ks.take(5).last() == ks[4]);
    assert(override_entries(ks.take(2), r) == override_entries(ks.take(1), r) + override_entry(ks[1], r));
    assert(override_entries(ks.take(3), r) == override_entries(ks.take(2), r) + override_entry(ks[2], r));
    assert(override_entries(ks.take(4), r) == override_entries(ks.take(3), r) + override_entry(ks[3], r));
    assert(override_entries(ks.take(5), r) == override_entries(ks.take(4), r) + override_entry(ks[4], r));
    assert(override_entries(ks, r) =~= override_entry(ks[0], r) + override_entry(ks[1], r)
        + override_entry(ks[2], r) + override_entry(ks[3], r) + override_entry(ks[4], r));
    assert(override_block(v, r) =~= PATCH_HEADER@ + override_entry(ks[0], r) + override_entry(
        ks[1],
        r,
    ) + override_entry(ks[2], r) + override_entry(ks[3], r) + override_entry(ks[4], r));
}

/// Materialisation begins by creating the project's root directory: the
/// first instruction creates it, before any file is written.
pub proof fn lemma_root_created_first(c: ConfigModel, m: MetadataModel, base: Seq<char>)
    ensures
        flatten_node(project_tree(c, m), base).len() > 0,
        flatten_node(project_tree(c, m), base)[0] == (ItemModel::CreateDir {
            path: join_path(base, c.name),
        }),
{
}

pub open spec fn version_queries(ks: Seq<EmbassyCrates>) -> Seq<Query> {
    ks.map_values(|k: EmbassyCrates| Query::ComponentVersion(k))
}

pub open spec fn version_pairs(ks: Seq<EmbassyCrates>, answers: Seq<Seq<char>>) -> Seq<(Seq<char>, Seq<char>)> {
    Seq::new(ks.len(), |i: int| (component_name(ks[i]), answers[i]))
}

proof fn lemma_record_versions(m: MetadataModel, ks: Seq<EmbassyCrates>, answers: Seq<Seq<char>>)
    requires
        answers.len() == ks.len(),
    ensures
        record_answers(m, version_queries(ks), answers) == (MetadataModel {
            versions: m.versions + version_pairs(ks, answers),
            ..m
        }),
    decreases ks.len(),
{
    if ks.len() == 0 {
        assert(m.versions + version_pairs(ks, answers) =~= m.versions);
    } else {
        let m1 = record_answer(m, Query::ComponentVersion(ks[0]), answers[0]);
        assert(version_queries(ks)[0] == Query::ComponentVersion(ks[0]));
        assert(version_queries(ks).drop_first() =~= version_queries(ks.drop_first()));
        lemma_record_versions(m1, ks.drop_first(), answers.drop_first());
        assert(m1.versions + version_pairs(ks.drop_first(), answers.drop_first()) =~= m.versions
            + version_pairs(ks, answers));
    }
}

proof fn lemma_version_found(vs: Seq<(Seq<char>, Seq<char>)>, name: Seq<char>, i: int)
    requires
        0 <= i < vs.len(),
        vs[i].0 == name,
    ensures
        version_of(vs, name) is Some,
    decreases i,
{
    if vs[0].0 != name {
        lemma_version_found(vs.drop_first(), name, i - 1);
    }
}

/// Recording an answer to each read that `queries_of(c)` lists, in order,
/// starting from empty metadata, gives metadata from which the project for
/// `c` is built without failure.
pub proof fn lemma_answered_queries_ready(c: ConfigModel, answers: Seq<Seq<char>>)
    requires
        answers.len() == queries_of(c).len(),
    ensures
        metadata_ready(c, record_answers(empty_metadata(), queries_of(c), answers)),
        build_result(c, record_answers(empty_metadata(), queries_of(c), answers)) is Ok,
{
    let ks = required_components_of(c.vendor);
    let qs = queries_of(c);
    assert(version_queries(ks) == ks.map_values(|k: EmbassyCrates| Query::ComponentVersion(k)));
    let rest = if c.no_pin {
        let m1 = record_answer(empty_metadata(), Query::ToolchainChannel, answers[0]);
        assert(qs[0] == Query::ToolchainChannel);
        assert(qs.drop_first() =~= version_queries(ks));
        assert(record_answers(empty_metadata(), qs, answers) == record_answers(
            m1,
            qs.drop_first(),
            answers.drop_first(),
        ));
        lemma_record_versions(m1, ks, answers.drop_first());
        answers.drop_first()
    } else {
        let m1 = record_answer(empty_metadata(), Query::LatestCommit, answers[0]);
        let m2 = record_answer(m1, Query::ToolchainChannel, answers[1]);
        assert(qs[0] == Query::LatestCommit);
        assert(qs.drop_first()[0] == Query::ToolchainChannel);
        assert(qs.drop_first().drop_first() =~= version_queries(ks));
        assert(record_answers(empty_metadata(), qs, answers) == record_answers(
            m1,
            qs.drop_first(),
            answers.drop_first(),
        ));
        assert(record_answers(m1, qs.drop_first(), answers.drop_first()) == record_answers(
            m2,
            qs.drop_first().drop_first(),
            answers.drop_first().drop_first(),
        ));
        lemma_record_versions(m2, ks, answers.drop_first().drop_first());
        answers.drop_first().drop_first()
    };
    let m = record_answers(empty_metadata(), qs, answers);
    assert(m.versions =~= version_pairs(ks, rest));
    assert forall|i: int| 0 <= i < ks.len() implies (#[trigger] version_of(
        m.versions,
        component_name(ks[i]),
    )) is Some by {
        lemma_version_found(m.versions, component_name(ks[i]), i);
    }
}

/// With pinning off the latest commit is never read, the override block
/// lists each overridden component once, each taken from the upstream
/// repository with no revision, and the root manifest ends with that block.
/// With pinning on, the latest commit is the first read.
pub proof fn lemma_unpinned_override(c: ConfigModel, m: MetadataModel)
    ensures
        c.no_pin ==> !queries_of(c).contains(Query::LatestCommit),
        !c.no_pin ==> queries_of(c)[0] == Query::LatestCommit,
        c.no_pin ==> ({
            let ks = overridden_components(c.vendor);
            let plain = |k: EmbassyCrates| LINE_BREAK@ + component_name(k) + GIT_SOURCE@ + ENTRY_CLOSE@;
            &&& pinned_revision(c, m) is None
            &&& override_block(c.vendor, pinned_revision(c, m)) == PATCH_HEADER@ + plain(ks[0])
                + plain(ks[1]) + plain(ks[2]) + plain(ks[3]) + plain(ks[4])
            &&& root_manifest(c, m) == (if c.workspace {
                WORKSPACE_MANIFEST_HEAD@ + root_dependencies(c, m) + WORKSPACE_MANIFEST_GAP@
            } else {
                APP_MANIFEST_HEAD@ + c.name + APP_MANIFEST_DEPS@ + root_dependencies(c, m)
                    + APP_MANIFEST_TAIL@
            }) + override_block(c.vendor, None)
        }),
{
    let qs = queries_of(c);
    let ks = required_components_of(c.vendor);
    if c.no_pin {
        assert forall|i: int| 0 <= i < qs.len() implies qs[i] != Query::LatestCommit by {
            if i >= 1 {
                assert(qs[i] == Query::ComponentVersion(ks[i - 1]));
            }
        }
        lemma_override_block_entries(c.vendor, None);
        let ks5 = overridden_components(c.vendor);
        lemma_override_entry_shape(ks5[0], None);
        lemma_override_entry_shape(ks5[1], None);
        lemma_override_entry_shape(ks5[2], None);
        lemma_override_entry_shape(ks5[3], None);
        lemma_override_entry_shape(ks5[4], None);
    }
}

} // verus!
