//! Settings: which packages there are, where their files lie, and who signs.

use vstd::prelude::*;

verus! {

/// `base` with `name` adjoined: a `/` goes between the two unless `base` is
/// empty or ends in one already.
pub open spec fn joined(base: Seq<char>, name: Seq<char>) -> Seq<char> {
    if base.len() == 0 || base.last() == '/' {
        base + name
    } else {
        base + "/"@ + name
    }
}

/// Adjoins the relative path `name` to `base`.
pub fn join_path(base: &str, name: &str) -> (path: String)
    ensures
        path@ == joined(base@, name@),
{
    let mut path = base.to_owned();
    let n = base.unicode_len();
    if n > 0 && base.get_char(n - 1) != '/' {
        path.append("/");
    }
    path.append(name);
    path
}

/// One package and the places of its two files.
#[derive(Debug)]
pub struct ConfigPackage {
    pub name: String,
    /// The directory of the package's sources.
    pub path: String,
    pub path_changelog: String,
    pub path_dchfile: String,
}

/// The mathematical value of a [`ConfigPackage`].
pub struct ConfigPackageView {
    pub name: Seq<char>,
    pub path: Seq<char>,
    pub path_changelog: Seq<char>,
    pub path_dchfile: Seq<char>,
}

impl View for ConfigPackage {
    type V = ConfigPackageView;

    open spec fn view(&self) -> ConfigPackageView {
        ConfigPackageView {
            name: self.name@,
            path: self.path@,
            path_changelog: self.path_changelog@,
            path_dchfile: self.path_dchfile@,
        }
    }
}

impl DeepView for ConfigPackage {
    type V = ConfigPackageView;

    open spec fn deep_view(&self) -> ConfigPackageView {
        self@
    }
}

impl ConfigPackageView {
    /// Where the changelog lies unless the settings say otherwise.
    pub open spec fn default_changelog(path: Seq<char>) -> Seq<char> {
        joined(joined(path, "debian"@), "changelog"@)
    }

    /// Where the release descriptor lies unless the settings say otherwise.
    pub open spec fn default_dchfile(path: Seq<char>) -> Seq<char> {
        joined(joined(path, "debian"@), "Dchfile"@)
    }

    /// The lines that show the package in the text of the settings.
    pub open spec fn render(self) -> Seq<char> {
        "\t "@ + self.name + ":\n"@ + "\t\t name: "@ + self.name + "\n"@ + "\t\t path: "@
            + self.path + "\n"@ + "\t\t path-changelog: "@ + self.path_changelog + "\n"@
            + "\t\t path-dchfile: "@ + self.path_dchfile + "\n"@
    }
}

impl ConfigPackage {
    /// `debian/changelog` below the package's directory.
    pub fn calculate_path_changelog(&self) -> (path: String)
        ensures
            path@ == ConfigPackageView::default_changelog(self.path@),
    {
        let debian = join_path(self.path.as_str(), "debian");
        join_path(debian.as_str(), "changelog")
    }

    /// `debian/Dchfile` below the package's directory.
    pub fn calculate_path_dchfile(&self) -> (path: String)
        ensures
            path@ == ConfigPackageView::default_dchfile(self.path@),
    {
        let debian = join_path(self.path.as_str(), "debian");
        join_path(debian.as_str(), "Dchfile")
    }

    /// The package as the settings describe it: a file whose place they
    /// leave out lies at its default place below `path`.
    pub fn resolve(
        name: String,
        path: String,
        path_changelog: Option<String>,
        path_dchfile: Option<String>,
    ) -> (package: ConfigPackage)
        ensures
            package@ == (ConfigPackageView {
                name: name@,
                path: path@,
                path_changelog: match path_changelog {
                    Some(place) => place@,
                    None => ConfigPackageView::default_changelog(path@),
                },
                path_dchfile: match path_dchfile {
                    Some(place) => place@,
                    None => ConfigPackageView::default_dchfile(path@),
                },
            }),
    {
        let mut package = ConfigPackage {
            name,
            path,
            path_changelog: String::new(),
            path_dchfile: String::new(),
        };
        package.path_changelog = match path_changelog {
            Some(place) => place,
            None => package.calculate_path_changelog(),
        };
        package.path_dchfile = match path_dchfile {
            Some(place) => place,
            None => package.calculate_path_dchfile(),
        };
        package
    }

    fn write_to(&self, out: &mut String)
        ensures
            final(out)@ == old(out)@ + self@.render(),
    {
        out.append("\t ");
        out.append(self.name.as_str());
        out.append(":\n");
        out.append("\t\t name: ");
        out.append(self.name.as_str());
        out.append("\n");
        out.append("\t\t path: ");
        out.append(self.path.as_str());
        out.append("\n");
        out.append("\t\t path-changelog: ");
        out.append(self.path_changelog.as_str());
        out.append("\n");
        out.append("\t\t path-dchfile: ");
        out.append(self.path_dchfile.as_str());
        out.append("\n");
    }
}

/// Who signs a release.
#[derive(Debug)]
pub struct ConfigMantainer {
    pub name: String,
    pub email: String,
}

/// The settings of one run.
#[derive(Debug)]
pub struct Config {
    /// The file that the settings were read from.
    pub path: String,
    /// The packages to work on, as named on the command line.
    pub packages: Vec<String>,
    /// Every package that the settings know, each name once.
    pub packages_all: Vec<ConfigPackage>,
    pub mantainer: ConfigMantainer,
}

/// The mathematical value of a [`Config`].
pub struct ConfigView {
    pub path: Seq<char>,
    pub packages: Seq<Seq<char>>,
    pub packages_all: Seq<ConfigPackageView>,
    pub mantainer_name: Seq<char>,
    pub mantainer_email: Seq<char>,
}

impl View for Config {
    type V = ConfigView;

    open spec fn view(&self) -> ConfigView {
        ConfigView {
            path: self.path@,
            packages: self.packages.deep_view(),
            packages_all: self.packages_all.deep_view(),
            mantainer_name: self.mantainer.name@,
            mantainer_email: self.mantainer.email@,
        }
    }
}

/// The position of the package called `name`, if there is one.
pub open spec fn position_of(packages: Seq<ConfigPackageView>, name: Seq<char>) -> Option<int>
    decreases packages.len(),
{
    if packages.len() == 0 {
        None
    } else if packages.last().name == name {
        Some(packages.len() - 1)
    } else {
        position_of(packages.drop_last(), name)
    }
}

/// No two packages share a name.
pub open spec fn distinct_names(packages: Seq<ConfigPackageView>) -> bool {
    forall|i: int, j: int|
        0 <= i < j < packages.len() ==> #[trigger] packages[i].name != #[trigger] packages[j].name
}

/// `position_of` finds a package exactly where one of that name exists.
pub proof fn lemma_position_of(packages: Seq<ConfigPackageView>, name: Seq<char>)
    ensures
        match position_of(packages, name) {
            Some(at) => 0 <= at < packages.len() && packages[at].name == name,
            None => forall|k: int| 0 <= k < packages.len() ==> packages[k].name != name,
        },
    decreases packages.len(),
{
    if packages.len() > 0 && packages.last().name != name {
        lemma_position_of(packages.drop_last(), name);
        if position_of(packages.drop_last(), name) is None {
            assert forall|k: int| 0 <= k < packages.len() implies packages[k].name != name by {
                if k < packages.len() - 1 {
                    assert(packages.drop_last()[k] == packages[k]);
                }
            }
        }
    }
}

/// The `  - NAME` lines of the packages to work on.
pub open spec fn render_chosen(packages: Seq<Seq<char>>) -> Seq<char>
    decreases packages.len(),
{
    if packages.len() == 0 {
        Seq::empty()
    } else {
        render_chosen(packages.drop_last()) + "\t - "@ + packages.last() + "\n"@
    }
}

/// The blocks of all known packages.
pub open spec fn render_known(packages: Seq<ConfigPackageView>) -> Seq<char>
    decreases packages.len(),
{
    if packages.len() == 0 {
        Seq::empty()
    } else {
        render_known(packages.drop_last()) + packages.last().render()
    }
}

impl ConfigView {
    /// Every known package has a name of its own.
    pub open spec fn wf(self) -> bool {
        distinct_names(self.packages_all)
    }

    /// The known packages after `package` was put among them: in the place
    /// of the one with its name, or behind all others.
    pub open spec fn with_package(self, package: ConfigPackageView) -> Seq<ConfigPackageView> {
        match position_of(self.packages_all, package.name) {
            Some(at) => self.packages_all.update(at, package),
            None => self.packages_all.push(package),
        }
    }

    /// The settings as text.
    pub open spec fn render(self) -> Seq<char> {
        "packages:\n"@ + render_chosen(self.packages) + "packages-all:\n"@ + render_known(
            self.packages_all,
        ) + "mantainer:\n"@ + "\t name: "@ + self.mantainer_name + "\n"@ + "\t email: "@
            + self.mantainer_email + "\n"@
    }
}

impl Config {
    /// Settings that know no package yet.
    pub fn new(path: String, packages: Vec<String>, mantainer: ConfigMantainer) -> (config: Config)
        ensures
            config@ == (ConfigView {
                path: path@,
                packages: packages.deep_view(),
                packages_all: Seq::empty(),
                mantainer_name: mantainer.name@,
                mantainer_email: mantainer.email@,
            }),
            config@.wf(),
    {
        let config = Config { path, packages, packages_all: Vec::new(), mantainer };
        assert(config.packages_all.deep_view() =~= Seq::<ConfigPackageView>::empty());
        config
    }

    /// Where among the known packages the one called `name` stands.
    pub fn find(&self, name: &str) -> (at: Option<usize>)
        ensures
            match at {
                Some(at) => position_of(self@.packages_all, name@) == Some(at as int),
                None => position_of(self@.packages_all, name@) is None,
            },
    {
        let key = name.to_owned();
        let mut i = self.packages_all.len();
        let ghost all = self@.packages_all;
        assert(all.take(i as int) =~= all);
        while i > 0
            invariant
                i <= self.packages_all.len(),
                all == self@.packages_all,
                key@ == name@,
                position_of(all, name@) == position_of(all.take(i as int), name@),
            decreases i,
        {
            assert(all.take(i as int).drop_last() =~= all.take(i - 1));
            if self.packages_all[i - 1].name == key {
                return Some(i - 1);
            }
            i -= 1;
        }
        None
    }

    /// The known package called `name`, if there is one.
    pub fn package(&self, name: &str) -> (found: Option<&ConfigPackage>)
        ensures
            match found {
                Some(package) => package@.name == name@ && self@.packages_all.contains(package@),
                None => forall|k: int|
                    0 <= k < self@.packages_all.len() ==> self@.packages_all[k].name != name@,
            },
    {
        proof {
            lemma_position_of(self@.packages_all, name@);
        }
        match self.find(name) {
            Some(at) => {
                assert(self@.packages_all[at as int] == self.packages_all[at as int]@);
                Some(&self.packages_all[at])
            },
            None => None,
        }
    }

    /// Makes `package` known: it takes the place of the package of its
    /// name, or goes behind all others where there is none.
    pub fn insert_package(&mut self, package: ConfigPackage)
        requires
            old(self)@.wf(),
        ensures
            final(self)@ == (ConfigView {
                packages_all: old(self)@.with_package(package@),
                ..old(self)@
            }),
            final(self)@.wf(),
    {
        let ghost before = self@.packages_all;
        proof {
            lemma_position_of(before, package@.name);
        }
        match self.find(package.name.as_str()) {
            Some(at) => {
                self.packages_all[at] = package;
                assert(self@.packages_all =~= before.update(at as int, package@));
            },
            None => {
                self.packages_all.push(package);
                assert(self@.packages_all =~= before.push(package@));
            },
        }
    }

    /// The settings as text.
    pub fn to_string(&self) -> (text: String)
        ensures
            text@ == self@.render(),
    {
        let mut text = String::new();
        text.append("packages:\n");
        let ghost chosen = self@.packages;
        let mut i: usize = 0;
        while i < self.packages.len()
            invariant
                i <= self.packages.len(),
                chosen == self.packages.deep_view(),
                text@ == "packages:\n"@ + render_chosen(chosen.take(i as int)),
            decreases self.packages.len() - i,
        {
            assert(chosen.take(i + 1).drop_last() =~= chosen.take(i as int));
            text.append("\t - ");
            text.append(self.packages[i].as_str());
            text.append("\n");
            i += 1;
        }
        assert(chosen.take(i as int) =~= chosen);
        text.append("packages-all:\n");
        let ghost head = text@;
        let ghost known = self@.packages_all;
        let mut j: usize = 0;
        while j < self.packages_all.len()
            invariant
                j <= self.packages_all.len(),
                known == self.packages_all.deep_view(),
                text@ == head + render_known(known.take(j as int)),
            decreases self.packages_all.len() - j,
        {
            assert(known.take(j + 1).drop_last() =~= known.take(j as int));
            self.packages_all[j].write_to(&mut text);
            j += 1;
        }
        assert(known.take(j as int) =~= known);
        text.append("mantainer:\n");
        text.append("\t name: ");
        text.append(self.mantainer.name.as_str());
        text.append("\n");
        text.append("\t email: ");
        text.append(self.mantainer.email.as_str());
        text.append("\n");
        text
    }
}

} // verus!
