use file_history::dynamicconfig::{
    get_hg_group, get_shard, in_sandcastle, parse_tiers, platform_of, Domain, Generator, HgGroup,
    HostFacts, OsType, Platform, Repo,
};
use file_history::name_set::NameSet;

fn tiers(names: &[&str]) -> NameSet {
    NameSet::from_names(&names.iter().map(|s| s.to_string()).collect())
}

fn host(tiers_file: Option<&str>) -> HostFacts {
    HostFacts {
        tiers_file: tiers_file.map(|text| text.to_string()),
        hostname_hash: 1234,
        alpha_marker: false,
        staging_marker: false,
        os_type: OsType::Centos,
        prod_marker: false,
    }
}

/// Keeps what rules set, section by section, and writes it out.
struct Config {
    sections: Vec<(String, Vec<(String, String)>)>,
}

impl Config {
    fn set(&mut self, section: &str, name: &str, value: &str) {
        let at = match self.sections.iter().position(|(s, _)| s == section) {
            Some(at) => at,
            None => {
                self.sections.push((section.to_string(), Vec::new()));
                self.sections.len() - 1
            }
        };
        self.sections[at].1.push((name.to_string(), value.to_string()));
    }

    fn render(&self) -> String {
        let mut text = String::new();
        for (section, values) in &self.sections {
            text.push_str(&format!("[{}]\n", section));
            for (name, value) in values {
                text.push_str(&format!("{}={}\n", name, value));
            }
            text.push('\n');
        }
        text
    }
}

#[test]
fn test_basic() {
    let repo_name = "test_repo";
    let mut generator = Generator::new(repo_name.to_string(), host(None));

    let tiers = tiers(&["in_tier1", "in_tier2"]);
    let group = HgGroup::Alpha;
    let shard = 10;
    generator.set_inputs(tiers, group, shard);

    fn test_rules(gen: &Generator, config: &mut Config) {
        if gen.in_tiers(&["in_tier1"]) {
            config.set("tier_section", "tier_key", "in_tier1");
        }
        if !gen.in_tiers(&["not_in_tier3"]) {
            config.set("tier_section", "tier_key2", "not_in_tier3");
        }
        if !gen.in_shard(1) {
            config.set("shard_section", "shard_key", "not_in_shard1");
        }
        if gen.in_shard(75) {
            config.set("shard_section", "shard_key2", "in_shard75");
        }
        if !gen.in_group(HgGroup::Dev) {
            config.set("group_section", "group_key", "not_in_dev");
        }
        if gen.in_group(HgGroup::Alpha) {
            config.set("group_section", "group_key2", "in_alpha");
        }
        if gen.in_group(HgGroup::Beta) {
            config.set("group_section", "group_key3", "in_beta");
        }
        // What the text "[load_hgrc_section]\nkey=value" holds.
        config.set("load_hgrc_section", "key", "value");
    }

    let mut config = Config { sections: Vec::new() };
    test_rules(&generator, &mut config);
    let config_str = config.render();

    assert_eq!(
        config_str,
        "[tier_section]
tier_key=in_tier1
tier_key2=not_in_tier3

[shard_section]
shard_key=not_in_shard1
shard_key2=in_shard75

[group_section]
group_key=not_in_dev
group_key2=in_alpha
group_key3=in_beta

[load_hgrc_section]
key=value

"
    );
}

#[test]
fn shard_is_the_hash_reduced_to_a_hundred() {
    assert_eq!(get_shard(0), 0);
    assert_eq!(get_shard(99), 99);
    assert_eq!(get_shard(100), 0);
    assert_eq!(get_shard(1234), 34);
    assert_eq!(get_shard(u64::MAX), 15);
}

#[test]
fn release_tier_is_stable_whatever_else_holds() {
    assert_eq!(
        get_hg_group(&tiers(&["hg_dev", "hg_release", "hg_alpha"]), 0, true, true),
        HgGroup::Stable
    );
}

#[test]
fn development_tier_comes_before_alpha() {
    assert_eq!(get_hg_group(&tiers(&["hg_alpha", "hg_dev"]), 50, true, false), HgGroup::Dev);
}

#[test]
fn alpha_is_given_by_tier_or_marker() {
    assert_eq!(get_hg_group(&tiers(&["hg_alpha"]), 50, false, false), HgGroup::Alpha);
    assert_eq!(get_hg_group(&tiers(&["sandcastle.staging"]), 50, false, false), HgGroup::Alpha);
    assert_eq!(get_hg_group(&tiers(&[]), 50, true, false), HgGroup::Alpha);
}

#[test]
fn staging_marker_counts_only_in_the_build_farm() {
    assert_eq!(get_hg_group(&tiers(&[]), 50, false, true), HgGroup::Stable);
    assert_eq!(get_hg_group(&tiers(&[]), 5, false, true), HgGroup::Beta);
    for farm in ["sandcastle", "sandcastlefog", "sandcastle.releng", "sandcastle.vm.linux"] {
        assert_eq!(get_hg_group(&tiers(&[farm]), 5, false, true), HgGroup::Alpha);
        assert_eq!(get_hg_group(&tiers(&[farm]), 5, false, false), HgGroup::Stable);
    }
}

#[test]
fn low_shards_outside_the_build_farm_are_beta() {
    assert_eq!(get_hg_group(&tiers(&["other"]), 0, false, false), HgGroup::Beta);
    assert_eq!(get_hg_group(&tiers(&["other"]), 19, false, false), HgGroup::Beta);
    assert_eq!(get_hg_group(&tiers(&["other"]), 20, false, false), HgGroup::Stable);
    assert_eq!(get_hg_group(&tiers(&["sandcastle"]), 19, false, false), HgGroup::Stable);
}

#[test]
fn tiers_are_found_by_their_whole_name() {
    let tiers = tiers(&["sandcastle.releng", "hg_dev"]);
    assert!(tiers.contains_str("hg_dev"));
    assert!(!tiers.contains_str("hg_de"));
    assert!(!tiers.contains_str("sandcastle"));
    assert!(in_sandcastle(&tiers));
    assert!(!in_sandcastle(&NameSet::new()));
}

#[test]
fn tiers_are_the_words_of_the_tiers_file() {
    let tiers = parse_tiers("  web.front\thg_dev\n\nsandcastle hg_dev\u{a0}last ");
    assert_eq!(tiers.into_vec(), vec!["web.front", "hg_dev", "sandcastle", "last"]);
    assert!(parse_tiers("").is_empty());
    assert!(parse_tiers(" \n\t ").is_empty());
}

#[test]
fn groups_have_names_and_ranks() {
    assert_eq!(HgGroup::Dev.to_str(), "hg_dev");
    assert_eq!(HgGroup::Alpha.to_str(), "alpha");
    assert_eq!(HgGroup::Beta.to_str(), "beta");
    assert_eq!(HgGroup::Stable.to_str(), "stable");
    assert_eq!(
        [HgGroup::Dev.rank(), HgGroup::Alpha.rank(), HgGroup::Beta.rank(), HgGroup::Stable.rank()],
        [1, 2, 3, 4]
    );
}

#[test]
fn platform_follows_the_operating_system() {
    assert_eq!(platform_of(OsType::Fedora), Platform::Fedora);
    assert_eq!(platform_of(OsType::Macos), Platform::OSX);
    assert_eq!(platform_of(OsType::Centos), Platform::Centos);
    assert_eq!(platform_of(OsType::Ubuntu), Platform::Ubuntu);
    assert_eq!(platform_of(OsType::Windows), Platform::Windows);
    assert_eq!(platform_of(OsType::Other), Platform::Unknown);
}

#[test]
fn a_generator_holds_what_the_host_facts_give() {
    let mut facts = host(Some("hg_alpha\nweb\n"));
    facts.hostname_hash = 707;
    facts.os_type = OsType::Macos;
    facts.prod_marker = true;
    let generator = Generator::new("anything".to_string(), facts);
    assert_eq!(*generator.repo(), Repo::Unknown);
    assert_eq!(generator.group(), HgGroup::Alpha);
    assert_eq!(generator.platform(), Platform::OSX);
    assert_eq!(generator.domain(), Domain::Prod);
    assert!(generator.in_tier("web"));
    assert!(!generator.in_tier("we"));
    assert!(generator.in_tiers(&["nope", "hg_alpha"]));
    assert!(!generator.in_tiers(&[]));
    // The shard is 7: below 8, not below 7.
    assert!(generator.in_shard(8));
    assert!(!generator.in_shard(7));
    assert!(generator.in_repos(&[Repo::Unknown]));
    assert!(!generator.in_repos(&[]));

    let generator = Generator::new("anything".to_string(), host(None));
    assert_eq!(generator.domain(), Domain::Corp);
    assert_eq!(generator.group(), HgGroup::Stable);
}

#[test]
fn a_group_includes_the_earlier_groups() {
    let mut generator = Generator::new("repo".to_string(), host(Some("")));
    generator.set_inputs(NameSet::new(), HgGroup::Beta, 0);
    assert!(!generator.in_group(HgGroup::Dev));
    assert!(!generator.in_group(HgGroup::Alpha));
    assert!(generator.in_group(HgGroup::Beta));
    assert!(generator.in_group(HgGroup::Stable));
    assert!(!generator.in_shard(0));
}

#[test]
fn every_repository_name_gives_the_unknown_repository() {
    assert_eq!(Repo::from_str("test_repo"), Ok(Repo::Unknown));
    assert_eq!(Repo::from_str(""), Ok(Repo::Unknown));
}
