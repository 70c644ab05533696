use bundler::aggregate;
use bundler::content::{EagerPlugin, LazyGroup, LazyPlugin};
use bundler::expand::{expand, Declaration};
use bundler::id_table::{make_id_map, IdTable};
use bundler::load_config::{Index, LoadConfig};
use bundler::payload::{self, Config, DetailConfig, IdMapElement, Meta, PluginOptConfig, PluginStartConfig, VimOptPlugin, VimStartPlugin};
use bundler::synth::Language;
use bundler::unpack::{unpack_eager, unpack_group, unpack_lazy};
use serde_json::Value;

fn package_path(name: &str) -> String {
    String::from("/nix/store/") + name
}

fn plugin_package(name: &str) -> IdMapElement {
    IdMapElement { plugin_id: String::from(name), package: package_path(name) }
}

fn meta(names: Vec<&str>) -> Meta {
    Meta {
        extra_packages: vec![String::from("/nix/store/...")],
        id_map: names.iter().map(|name| plugin_package(name)).collect(),
    }
}

fn object(key: &str, value: i64) -> Value {
    let mut m = serde_json::Map::new();
    m.insert(key.to_string(), Value::from(value));
    Value::Object(m)
}

fn strings(v: &[&str]) -> Vec<String> {
    v.iter().map(|s| s.to_string()).collect()
}

fn unpack_all(plugins: &Vec<VimOptPlugin>, table: &IdTable) -> Vec<LazyPlugin> {
    expand(plugins)
        .iter()
        .filter_map(|d| match d {
            Declaration::Plugin(p) => Some(unpack_lazy(p, table)),
            Declaration::Group(_) => None,
        })
        .collect()
}

fn assert_index(idx: &Index, exp: &[(&str, &[&str])]) {
    assert_eq!(idx.len(), exp.len());
    for (k, ids) in exp {
        assert_eq!(idx.get(&k.to_string()), Some(&strings(ids)), "key {}", k);
    }
}

#[test]
fn test_make_id_map() {
    let foo_package = IdMapElement { plugin_id: String::from("foo"), package: package_path("foo") };
    let bar_package = IdMapElement { plugin_id: String::from("bar"), package: package_path("bar") };
    let meta = Meta {
        extra_packages: vec![String::from("/nix/store/...")],
        id_map: vec![foo_package.clone(), bar_package.clone()],
    };

    let act = make_id_map(&meta);

    assert_eq!(act.get(&foo_package.package), "foo");
    assert_eq!(act.get(&bar_package.package), "bar");
    assert!(!act.contains(&package_path("baz")));
}

#[test]
fn test_unpack_start_package() {
    let name = "foo-vim";
    let meta = meta(vec![name]);
    let id_map = make_id_map(&meta);
    let plugin = VimStartPlugin::SimplePackage(package_path(name));
    let plugins = vec![plugin.clone()];
    let exp = EagerPlugin { plugin_id: name.to_string(), ..Default::default() };
    let exp_vec = vec![exp.clone()];

    let act = unpack_eager(&plugin, &id_map);
    let act_vec = plugins.iter().map(|p| unpack_eager(p, &id_map)).collect::<Vec<_>>();

    assert_eq!(exp, act);
    assert_eq!(exp_vec, act_vec);
}

#[test]
fn test_unpack_start_plugin() {
    let name = "foo-vim";
    let meta = meta(vec![name]);
    let id_map = make_id_map(&meta);
    let code = "foo-code";
    let args = object("foo-arg", 1);
    let plugin = VimStartPlugin::ConfiguredPackage(PluginStartConfig {
        plugin: package_path(name),
        startup_config: Config::Detail(DetailConfig {
            language: Language::Lua,
            code: String::from(code),
            args: args.clone(),
        }),
        extra_packages: vec![],
    });
    let plugins = vec![plugin.clone()];
    let exp = EagerPlugin {
        plugin_id: name.to_string(),
        startup_config: "local args = vim.json.decode([[{\"foo-arg\":1}]])\nfoo-code".to_string(),
    };
    let exp_vec = vec![exp.clone()];

    let act = unpack_eager(&plugin, &id_map);
    let act_vec = plugins.iter().map(|p| unpack_eager(p, &id_map)).collect::<Vec<_>>();

    assert_eq!(exp, act);
    assert_eq!(exp_vec, act_vec);
}

#[test]
fn test_unpack_opt_package() {
    let name = "foo-vim";
    let meta = meta(vec![name]);
    let id_map = make_id_map(&meta);
    let plugin = VimOptPlugin::SimplePackage(package_path(name));
    let plugins = vec![plugin.clone()];
    let exp = vec![LazyPlugin { plugin_id: name.to_string(), ..Default::default() }];
    let exp_vec = exp.clone();

    let act = vec![unpack_lazy(&plugin, &id_map)];
    let act_vec = unpack_all(&plugins, &id_map);

    assert_eq!(exp, act);
    assert_eq!(exp_vec, act_vec);
}

fn configured_foo(name: &str, name2: &str) -> VimOptPlugin {
    VimOptPlugin::ConfiguredPackage(PluginOptConfig {
        plugin: package_path(name),
        startup_config: Config::Detail(DetailConfig {
            language: Language::Vim,
            code: String::from("foo-startup"),
            args: object("foo-startup-arg", 1),
        }),
        pre_config: Config::Detail(DetailConfig {
            language: Language::Lua,
            code: String::from("foo-pre-config"),
            args: object("foo-pre-config-arg", 3),
        }),
        post_config: Config::Detail(DetailConfig {
            language: Language::Lua,
            code: String::from("foo-config"),
            args: object("foo-config-arg", 2),
        }),
        depend_plugins: vec![VimOptPlugin::SimplePackage(package_path(name2))],
        ..Default::default()
    })
}

const FOO_STARTUP: &str = "vim.cmd([[let s:args = json_decode('{\"foo-startup-arg\":1}')\nfoo-startup]])";
const FOO_PRE: &str = "local args = vim.json.decode([[{\"foo-pre-config-arg\":3}]])\nfoo-pre-config";
const FOO_POST: &str = "local args = vim.json.decode([[{\"foo-config-arg\":2}]])\nfoo-config";

#[test]
fn test_unpack_opt_plugin() {
    let name = "foo-vim";
    let name2 = "bar-vin";
    let meta = meta(vec![name, name2]);
    let id_map = make_id_map(&meta);
    let plugin = configured_foo(name, name2);
    let plugins = vec![plugin.clone()];
    let exp = vec![
        LazyPlugin {
            plugin_id: name.to_string(),
            startup_config: FOO_STARTUP.to_string(),
            pre_config: FOO_PRE.to_string(),
            post_config: FOO_POST.to_string(),
            depend_plugins: strings(&[name2]),
            ..Default::default()
        },
        LazyPlugin { plugin_id: name2.to_string(), ..Default::default() },
    ];
    let exp_vec = exp.clone();

    let act = unpack_all(&vec![plugin], &id_map);
    let act_vec = unpack_all(&plugins, &id_map);

    assert_eq!(exp, act);
    assert_eq!(exp_vec, act_vec);
}

#[test]
fn test_unpack_bundle() {
    let bundle_name = "hoge";
    let depend_bundle_name = "huga";
    let name1 = "foo-vim";
    let name2 = "bar-vim";
    let meta = meta(vec![name1, name2]);
    let id_map = make_id_map(&meta);
    let bundle = payload::LazyGroup {
        name: String::from(bundle_name),
        plugins: vec![VimOptPlugin::SimplePackage(package_path(name1))],
        startup_config: Config::Detail(DetailConfig {
            language: Language::Vim,
            code: String::from("foo-startup"),
            args: object("foo-startup-arg", 1),
        }),
        extra_packages: vec![],
        pre_config: Config::Detail(DetailConfig {
            language: Language::Lua,
            code: String::from("foo-pre-config"),
            args: object("foo-pre-config-arg", 3),
        }),
        post_config: Config::Detail(DetailConfig {
            language: Language::Lua,
            code: String::from("foo-config"),
            args: object("foo-config-arg", 2),
        }),
        depend_plugins: vec![VimOptPlugin::SimplePackage(package_path(name2))],
        depend_groups: vec![depend_bundle_name.to_string()],
        ..Default::default()
    };
    let exp = LazyGroup {
        group_id: bundle_name.to_string(),
        plugin_ids: strings(&[name1]),
        startup_config: FOO_STARTUP.to_string(),
        pre_config: FOO_PRE.to_string(),
        post_config: FOO_POST.to_string(),
        depend_plugins: strings(&[name2]),
        depend_groups: strings(&[depend_bundle_name]),
        ..Default::default()
    };

    let act = unpack_group(&bundle, &id_map);

    assert_eq!(exp, act);
}

#[test]
fn test_unpack_opt_package_load_options() {
    let name = "foo-vim";
    let meta = meta(vec![name]);
    let id_map = make_id_map(&meta);
    let plugin = VimOptPlugin::SimplePackage(package_path(name));
    let plugins = vec![plugin.clone()];

    let act = aggregate::unpack_opt_plugin_load_options(LoadConfig::default(), &id_map, &plugins);

    assert_index(&act.depend_plugins, &[(name, &[])]);
    assert_index(&act.depend_groups, &[(name, &[])]);
    assert_index(&act.on_modules, &[]);
    assert_index(&act.on_events, &[]);
    assert_index(&act.on_filetypes, &[]);
    assert_index(&act.on_commands, &[]);
    assert!(act.timer_clients.is_empty());
    assert!(act.denops_clients.is_empty());
}

#[test]
fn test_unpack_opt_plugin_load_options() {
    let name1 = "foo-vim";
    let name2 = "bar-vim";
    let depend_bundle_name = "hoge";
    let meta = meta(vec![name1, name2]);
    let id_map = make_id_map(&meta);
    let plugin = VimOptPlugin::ConfiguredPackage(PluginOptConfig {
        plugin: package_path(name1),
        depend_plugins: vec![VimOptPlugin::SimplePackage(package_path(name2))],
        depend_groups: vec![depend_bundle_name.to_string()],
        on_modules: vec!["module".to_string()],
        on_events: vec!["event".to_string()],
        on_filetypes: vec!["filetype".to_string()],
        on_commands: vec!["command".to_string()],
        use_timer: true,
        use_denops: true,
        ..Default::default()
    });

    let act = aggregate::unpack_opt_plugin_load_options(LoadConfig::default(), &id_map, &vec![plugin]);

    assert_index(&act.depend_plugins, &[(name1, &[name2]), (name2, &[])]);
    assert_index(&act.depend_groups, &[(name1, &[depend_bundle_name]), (name2, &[])]);
    assert_index(&act.on_modules, &[("module", &[name1])]);
    assert_index(&act.on_events, &[("event", &[name1])]);
    assert_index(&act.on_filetypes, &[("filetype", &[name1])]);
    assert_index(&act.on_commands, &[("command", &[name1])]);
    assert_eq!(act.timer_clients, strings(&[name1]));
    assert_eq!(act.denops_clients, strings(&[name1]));
}

#[test]
fn test_unpack_bundle_load_options() {
    let name1 = "foo-vim";
    let name2 = "bar-vim";
    let bundle_name = "hoge";
    let depend_bundle_name = "huga";
    let meta = meta(vec![name1, name2]);
    let id_map = make_id_map(&meta);
    let bundle = payload::LazyGroup {
        name: String::from(bundle_name),
        plugins: vec![VimOptPlugin::SimplePackage(package_path(name1))],
        depend_plugins: vec![VimOptPlugin::SimplePackage(package_path(name2))],
        depend_groups: vec![depend_bundle_name.to_string()],
        on_modules: vec!["module".to_string()],
        on_events: vec!["event".to_string()],
        on_filetypes: vec!["filetype".to_string()],
        on_commands: vec!["command".to_string()],
        use_timer: true,
        ..Default::default()
    };
    let bundles = vec![bundle];

    let act = aggregate::unpack_bundle_load_options(LoadConfig::default(), &id_map, &bundles);

    assert_index(&act.depend_plugins, &[(bundle_name, &[name2]), (name1, &[]), (name2, &[])]);
    assert_index(
        &act.depend_groups,
        &[(bundle_name, &[depend_bundle_name]), (name1, &[]), (name2, &[])],
    );
    assert_index(&act.on_modules, &[("module", &[bundle_name])]);
    assert_index(&act.on_events, &[("event", &[bundle_name])]);
    assert_index(&act.on_filetypes, &[("filetype", &[bundle_name])]);
    assert_index(&act.on_commands, &[("command", &[bundle_name])]);
    assert_eq!(act.timer_clients, strings(&[bundle_name]));
    assert!(act.denops_clients.is_empty());
}
