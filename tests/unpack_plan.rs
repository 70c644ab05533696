use bundler::content::{EagerPlugin, LazyGroup, LazyPlugin};
use bundler::id_table::IdTable;
use bundler::load_config::{Index, LoadConfig};
use bundler::payload::{self, Config, DetailConfig, IdMapElement, Meta, PluginOptConfig, PluginStartConfig, VimOptPlugin, VimStartPlugin};
use bundler::synth::Language;
use bundler::unpack::{unpack_eager, unpack_group, unpack_lazy};
use serde_json::Value;

fn package_path(name: &str) -> String {
    String::from("/nix/store/") + name
}

fn meta(names: Vec<&str>) -> Meta {
    Meta {
        extra_packages: vec![String::from("/nix/store/...")],
        id_map: names
            .iter()
            .map(|name| IdMapElement { plugin_id: String::from(*name), package: package_path(name) })
            .collect(),
    }
}

fn mk_id_map(meta: &Meta) -> IdTable {
    bundler::id_table::make_id_map(meta)
}

fn object(key: &str, value: i64) -> Value {
    let mut m = serde_json::Map::new();
    m.insert(key.to_string(), Value::from(value));
    Value::Object(m)
}

fn strings(v: &[&str]) -> Vec<String> {
    v.iter().map(|s| s.to_string()).collect()
}

fn assert_index(idx: &Index, exp: &[(&str, &[&str])]) {
    assert_eq!(idx.len(), exp.len());
    for (k, ids) in exp {
        assert_eq!(idx.get(&k.to_string()), Some(&strings(ids)), "key {}", k);
    }
}

#[test]
fn make_id_map() {
    let foo_package = IdMapElement { plugin_id: String::from("foo"), package: package_path("foo") };
    let bar_package = IdMapElement { plugin_id: String::from("bar"), package: package_path("bar") };
    let meta = Meta {
        extra_packages: vec![String::from("/nix/store/...")],
        id_map: vec![foo_package.clone(), bar_package.clone()],
    };

    let act = mk_id_map(&meta);

    assert_eq!(act.get(&foo_package.package), "foo");
    assert_eq!(act.get(&bar_package.package), "bar");
}

#[test]
fn unpack_start_package() {
    let name = "foo-vim";
    let id_map = mk_id_map(&meta(vec![name]));
    let plugin = VimStartPlugin::SimplePackage(package_path(name));
    let exp = EagerPlugin { plugin_id: name.to_string(), ..Default::default() };

    let act = unpack_eager(&plugin, &id_map);

    assert_eq!(exp, act);
    assert_eq!(vec![exp], vec![plugin].iter().map(|p| unpack_eager(p, &id_map)).collect::<Vec<_>>());
}

#[test]
fn unpack_start_plugin() {
    let name = "foo-vim";
    let id_map = mk_id_map(&meta(vec![name]));
    let plugin = VimStartPlugin::ConfiguredPackage(PluginStartConfig {
        plugin: package_path(name),
        startup_config: Config::Detail(DetailConfig {
            language: Language::Lua,
            code: String::from("foo-code"),
            args: object("foo-arg", 1),
        }),
        extra_packages: vec![],
    });
    let exp = EagerPlugin {
        plugin_id: name.to_string(),
        startup_config: "local args = vim.json.decode([[{\"foo-arg\":1}]])\nfoo-code".to_string(),
    };

    let act = unpack_eager(&plugin, &id_map);

    assert_eq!(exp, act);
}

#[test]
fn unpack_opt_package() {
    let name = "foo-vim";
    let id_map = mk_id_map(&meta(vec![name]));
    let plugin = VimOptPlugin::SimplePackage(package_path(name));
    let exp = LazyPlugin { plugin_id: name.to_string(), ..Default::default() };

    let act = unpack_lazy(&plugin, &id_map);

    assert_eq!(exp, act);
}

#[test]
fn unpack_opt_plugin() {
    let name = "foo-vim";
    let name2 = "bar-vin";
    let id_map = mk_id_map(&meta(vec![name, name2]));
    let plugin = VimOptPlugin::ConfiguredPackage(PluginOptConfig {
        plugin: package_path(name),
        startup_config: Config::Detail(DetailConfig {
            language: Language::Vim,
            code: String::from("foo-startup"),
            args: object("foo-startup-arg", 1),
        }),
        pre_config: Config::Detail(DetailConfig {
            language: Language::Lua,
            code: String::from("foo-pre-config"),
            args: object("foo-pre-config-arg", 3),
        }),
        post_config: Config::Detail(DetailConfig {
            language: Language::Lua,
            code: String::from("foo-config"),
            args: object("foo-config-arg", 2),
        }),
        depend_plugins: vec![VimOptPlugin::SimplePackage(package_path(name2))],
        ..Default::default()
    });
    let exp = LazyPlugin {
        plugin_id: name.to_string(),
        startup_config: "vim.cmd([[let s:args = json_decode('{\"foo-startup-arg\":1}')\nfoo-startup]])".to_string(),
        pre_config: "local args = vim.json.decode([[{\"foo-pre-config-arg\":3}]])\nfoo-pre-config".to_string(),
        post_config: "local args = vim.json.decode([[{\"foo-config-arg\":2}]])\nfoo-config".to_string(),
        depend_plugins: strings(&[name2]),
        ..Default::default()
    };

    let act = unpack_lazy(&plugin, &id_map);

    assert_eq!(exp, act);
}

#[test]
fn unpack_bundle() {
    let name1 = "foo-vim";
    let name2 = "bar-vim";
    let id_map = mk_id_map(&meta(vec![name1, name2]));
    let bundle = payload::LazyGroup {
        name: String::from("hoge"),
        plugins: vec![VimOptPlugin::SimplePackage(package_path(name1))],
        startup_config: Config::Simple(String::from("foo-startup")),
        depend_plugins: vec![VimOptPlugin::SimplePackage(package_path(name2))],
        depend_groups: vec!["huga".to_string()],
        ..Default::default()
    };
    let exp = LazyGroup {
        group_id: "hoge".to_string(),
        plugin_ids: strings(&[name1]),
        startup_config: "foo-startup".to_string(),
        depend_plugins: strings(&[name2]),
        depend_groups: strings(&["huga"]),
        ..Default::default()
    };

    let act = unpack_group(&bundle, &id_map);

    assert_eq!(exp, act);
}

#[test]
fn unpack_opt_package_load_options() {
    let name = "foo-vim";
    let id_map = mk_id_map(&meta(vec![name]));
    let plugins = vec![VimOptPlugin::SimplePackage(package_path(name))];

    let act = bundler::aggregate::unpack_opt_plugin_load_options(LoadConfig::default(), &id_map, &plugins);

    assert_index(&act.depend_plugins, &[(name, &[])]);
    assert_index(&act.depend_groups, &[(name, &[])]);
    assert_index(&act.on_modules, &[]);
    assert_index(&act.on_events, &[]);
    assert_index(&act.on_filetypes, &[]);
    assert_index(&act.on_commands, &[]);
    assert!(act.timer_clients.is_empty());
}

#[test]
fn unpack_opt_plugin_load_options() {
    let name1 = "foo-vim";
    let name2 = "bar-vim";
    let id_map = mk_id_map(&meta(vec![name1, name2]));
    let plugin = VimOptPlugin::ConfiguredPackage(PluginOptConfig {
        plugin: package_path(name1),
        depend_plugins: vec![VimOptPlugin::SimplePackage(package_path(name2))],
        depend_groups: vec!["hoge".to_string()],
        on_modules: vec!["module".to_string()],
        on_events: vec!["event".to_string()],
        on_filetypes: vec!["filetype".to_string()],
        on_commands: vec!["command".to_string()],
        use_timer: true,
        ..Default::default()
    });

    let act = bundler::aggregate::unpack_opt_plugin_load_options(LoadConfig::default(), &id_map, &vec![plugin]);

    assert_index(&act.depend_plugins, &[(name1, &[name2]), (name2, &[])]);
    assert_index(&act.depend_groups, &[(name1, &["hoge"]), (name2, &[])]);
    assert_index(&act.on_modules, &[("module", &[name1])]);
    assert_index(&act.on_events, &[("event", &[name1])]);
    assert_index(&act.on_filetypes, &[("filetype", &[name1])]);
    assert_index(&act.on_commands, &[("command", &[name1])]);
    assert_eq!(act.timer_clients, strings(&[name1]));
}

#[test]
fn unpack_bundle_load_options() {
    let name1 = "foo-vim";
    let name2 = "bar-vim";
    let id_map = mk_id_map(&meta(vec![name1, name2]));
    let bundle = payload::LazyGroup {
        name: String::from("hoge"),
        plugins: vec![VimOptPlugin::SimplePackage(package_path(name1))],
        depend_plugins: vec![VimOptPlugin::SimplePackage(package_path(name2))],
        depend_groups: vec!["huga".to_string()],
        on_modules: vec!["module".to_string()],
        on_events: vec!["event".to_string()],
        on_filetypes: vec!["filetype".to_string()],
        on_commands: vec!["command".to_string()],
        use_timer: true,
        ..Default::default()
    };

    let act = bundler::aggregate::unpack_bundle_load_options(LoadConfig::default(), &id_map, &vec![bundle]);

    assert_index(&act.depend_plugins, &[("hoge", &[name2]), (name1, &[]), (name2, &[])]);
    assert_index(&act.depend_groups, &[("hoge", &["huga"]), (name1, &[]), (name2, &[])]);
    assert_index(&act.on_modules, &[("module", &["hoge"])]);
    assert_index(&act.on_events, &[("event", &["hoge"])]);
    assert_index(&act.on_filetypes, &[("filetype", &["hoge"])]);
    assert_index(&act.on_commands, &[("command", &["hoge"])]);
    assert_eq!(act.timer_clients, strings(&["hoge"]));
}
