use bundler::expand::{expand, Declaration};
use bundler::payload::{Config, DetailConfig, LazyGroup, PluginOptConfig, VimOptPlugin};
use bundler::synth::Language;
use serde_json::Value;

fn opt_simple_package() -> VimOptPlugin {
    VimOptPlugin::SimplePackage(String::from("simple-package"))
}

fn opt_simple_package2() -> VimOptPlugin {
    VimOptPlugin::SimplePackage(String::from("simple-package2"))
}

fn opt_filled_package() -> VimOptPlugin {
    VimOptPlugin::ConfiguredPackage(PluginOptConfig {
        plugin: String::from("filled-plugin"),
        startup_config: Config::Simple(String::from("filled-startup")),
        pre_config: Config::Simple(String::from("filled-pre-config")),
        post_config: Config::Simple(String::from("filled-config")),
        depend_plugins: vec![opt_simple_package()],
        depend_groups: vec![String::from("filled-depend-bundle")],
        on_modules: vec![String::from("filled-module")],
        on_events: vec![String::from("filled-event")],
        on_filetypes: vec![String::from("filled-filetype")],
        on_commands: vec![String::from("filled-command")],
        use_timer: true,
        use_denops: true,
    })
}

fn opt_filled_detail_package() -> VimOptPlugin {
    VimOptPlugin::ConfiguredPackage(PluginOptConfig {
        plugin: String::from("filled-detail-plugin"),
        startup_config: Config::Detail(DetailConfig {
            language: Language::Vim,
            code: String::from("filled-detail-startup-code"),
            args: Value::String(String::from("filled-detail-startup-args")),
        }),
        pre_config: Config::Detail(DetailConfig {
            language: Language::Vim,
            code: String::from("filled-detail-pre_config-code"),
            args: Value::String(String::from("filled-detail-pre_config-args")),
        }),
        post_config: Config::Detail(DetailConfig {
            language: Language::Lua,
            code: String::from("filled-detail-config-code"),
            args: Value::String(String::from("filled-detail-config-args")),
        }),
        depend_plugins: vec![opt_filled_package()],
        depend_groups: vec![String::from("filled-detail-depend-bundle")],
        on_modules: vec![String::from("filled-detail-module")],
        on_events: vec![String::from("filled-detail-event")],
        on_filetypes: vec![String::from("filled-detail-filetype")],
        on_commands: vec![String::from("filled-detail-command")],
        use_timer: false,
        use_denops: true,
    })
}

fn filled_bundle() -> LazyGroup {
    LazyGroup {
        name: String::from("simple-bundle"),
        plugins: vec![opt_simple_package2()],
        startup_config: Config::Simple(String::from("simple-startup")),
        extra_packages: vec![String::from("simple-extra-package")],
        pre_config: Config::Simple(String::from("simple-pre-config")),
        post_config: Config::Simple(String::from("simple-config")),
        depend_plugins: vec![opt_simple_package()],
        depend_groups: vec![String::from("simple-depend-bundle")],
        on_modules: vec![String::from("simple-module")],
        on_events: vec![String::from("simple-event")],
        on_filetypes: vec![String::from("simple-filetype")],
        on_commands: vec![String::from("simple-command")],
        use_timer: true,
    }
}

fn filled_detail_bundle() -> LazyGroup {
    LazyGroup {
        name: String::from("detail-bundle"),
        plugins: vec![opt_simple_package2()],
        startup_config: Config::Detail(DetailConfig {
            language: Language::Vim,
            code: String::from("detail-startup"),
            args: Value::String(String::from("detail-startup-arg")),
        }),
        extra_packages: vec![String::from("detail-extra-package")],
        pre_config: Config::Detail(DetailConfig {
            language: Language::Vim,
            code: String::from("detail-pre-config"),
            args: Value::String(String::from("detail-pre_config-arg")),
        }),
        post_config: Config::Detail(DetailConfig {
            language: Language::Lua,
            code: String::from("detail-config"),
            args: Value::String(String::from("detail-config-arg")),
        }),
        depend_plugins: vec![opt_filled_detail_package()],
        depend_groups: vec![String::from("detail-depend-bundle")],
        on_modules: vec![String::from("detail-module")],
        on_events: vec![String::from("detail-event")],
        on_filetypes: vec![String::from("detail-filetype")],
        on_commands: vec![String::from("detail-command")],
        use_timer: false,
    }
}

fn plugins(v: Vec<VimOptPlugin>) -> Vec<Declaration> {
    v.into_iter().map(Declaration::Plugin).collect()
}

#[test]
fn expand_opt_empty() {
    let arg = Vec::<VimOptPlugin>::new();
    let exp = Vec::<Declaration>::new();

    let act = expand(&arg);

    assert_eq!(exp, act);
}

#[test]
fn expand_opt_simple() {
    let arg = vec![opt_simple_package()];
    let exp = plugins(vec![opt_simple_package()]);

    let act = expand(&arg);

    assert_eq!(exp, act);
}

#[test]
fn expand_opt_filled() {
    let arg = vec![opt_filled_package()];
    let exp = plugins(vec![opt_filled_package(), opt_simple_package()]);

    let act = expand(&arg);

    assert_eq!(exp, act);
}

#[test]
fn expand_opt_filled_detail() {
    let arg = vec![opt_filled_detail_package()];
    let exp = plugins(vec![
        opt_filled_detail_package(),
        opt_filled_package(),
        opt_simple_package(),
    ]);

    let act = expand(&arg);

    assert_eq!(exp, act);
}

#[test]
fn expand_bundle_empty() {
    let arg = Vec::<LazyGroup>::new();
    let exp = Vec::<Declaration>::new();

    let act = expand(&arg);

    assert_eq!(exp, act);
}

#[test]
fn expand_bundle_filled() {
    let arg = vec![filled_bundle()];
    let mut exp = vec![Declaration::Group(filled_bundle())];
    exp.extend(plugins(vec![opt_simple_package2(), opt_simple_package()]));

    let act = expand(&arg);

    assert_eq!(exp, act);
}

#[test]
fn expand_bundle_filled_detail() {
    let arg = vec![filled_detail_bundle()];
    let mut exp = vec![Declaration::Group(filled_detail_bundle())];
    exp.extend(plugins(vec![
        opt_simple_package2(),
        opt_filled_detail_package(),
        opt_filled_package(),
        opt_simple_package(),
    ]));

    let act = expand(&arg);

    assert_eq!(exp, act);
}

#[test]
fn expand_group_then_members_then_dependencies() {
    let p1 = VimOptPlugin::SimplePackage(String::from("P1"));
    let p2 = VimOptPlugin::SimplePackage(String::from("P2"));
    let g = LazyGroup {
        name: String::from("G"),
        plugins: vec![p1.clone()],
        depend_plugins: vec![p2.clone()],
        ..Default::default()
    };
    let act = expand(&vec![g.clone()]);
    assert_eq!(act, vec![Declaration::Group(g), Declaration::Plugin(p1), Declaration::Plugin(p2)]);
}

#[test]
fn expansion_keeps_duplicates_and_reaches_nested_plugins() {
    let deep = VimOptPlugin::SimplePackage(String::from("deep"));
    let mid = VimOptPlugin::ConfiguredPackage(PluginOptConfig {
        plugin: String::from("mid"),
        depend_plugins: vec![deep.clone()],
        ..Default::default()
    });
    let top = VimOptPlugin::ConfiguredPackage(PluginOptConfig {
        plugin: String::from("top"),
        depend_plugins: vec![mid.clone(), deep.clone()],
        ..Default::default()
    });
    let act = expand(&vec![top.clone()]);
    assert_eq!(act, plugins(vec![top, mid, deep.clone(), deep]));
}
