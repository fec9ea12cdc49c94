use vstd::prelude::*;

verus! {

/// One model that the backend serves: its name, the version to ask for, and
/// the field of the request body that carries the image.
pub struct Model {
    pub name: String,
    pub version: u32,
    pub input_name: String,
}

/// The declarative source of the registry: the list of models, in the order
/// in which the source gives them.
pub struct Config {
    pub models: Vec<Model>,
}

/// Why a registry could not be built.
pub enum LoadError {
    /// Two entries of the source carry this name.
    DuplicateName { name: String },
}

/// The immutable mapping from model name to model, built once from a
/// `Config`; no two of its models share a name.
pub struct ModelRegistry {
    models: Vec<Model>,
}

/// Two distinct entries of `s` carry the same name.
pub open spec fn has_duplicate(s: Seq<Model>) -> bool {
    exists|i: int, j: int| 0 <= i < j < s.len() && #[trigger] s[i].name@ == #[trigger] s[j].name@
}

/// Some entry of `s` carries the name `name`.
pub open spec fn names(s: Seq<Model>, name: Seq<char>) -> bool {
    exists|i: int| 0 <= i < s.len() && #[trigger] s[i].name@ == name
}

/// The entry of `s` that carries `name`, if any.
pub open spec fn lookup(s: Seq<Model>, name: Seq<char>) -> Option<Model> {
    if names(s, name) {
        Some(s[choose|i: int| 0 <= i < s.len() && #[trigger] s[i].name@ == name])
    } else {
        None
    }
}

impl LoadError {
    /// A human-readable account of the error.
    pub fn message(&self) -> (r: String)
        ensures
            match self {
                LoadError::DuplicateName { name } => r@ == "Duplicate model name: "@ + name@,
            },
    {
        match self {
            LoadError::DuplicateName { name } => {
                let r = String::from_str("Duplicate model name: ").concat(name.as_str());
                proof {
                    reveal_strlit("Duplicate model name: ");
                }
                r
            },
        }
    }
}

impl ModelRegistry {
    /// The models of the registry, in the order of the source.
    pub closed spec fn models(&self) -> Seq<Model> {
        self.models@
    }

    /// No two models of the registry share a name.
    pub closed spec fn wf(&self) -> bool {
        !has_duplicate(self.models@)
    }

    /// Builds the registry from its source, all or nothing: it fails if and
    /// only if two entries share a name, and then names one such name.
    pub fn load(config: Config) -> (r: Result<ModelRegistry, LoadError>)
        ensures
            r is Ok <==> !has_duplicate(config.models@),
            r matches Ok(reg) ==> reg.wf() && reg.models() == config.models@,
            r matches Err(LoadError::DuplicateName { name }) ==> exists|i: int, j: int|
                0 <= i < j < config.models@.len() && config.models@[i].name@ == name@
                    && config.models@[j].name@ == name@,
    {
        let models = config.models;
        let n = models.len();
        let mut j: usize = 0;
        while j < n
            invariant
                n == models@.len(),
                models@ == config.models@,
                j <= n,
                forall|a: int, b: int|
                    0 <= a < b < j ==> #[trigger] models@[a].name@ != #[trigger] models@[b].name@,
            decreases n - j,
        {
            let mut i: usize = 0;
            while i < j
                invariant
                    n == models@.len(),
                    models@ == config.models@,
                    i <= j < n,
                    forall|a: int| 0 <= a < i ==> #[trigger] models@[a].name@ != models@[j as int].name@,
                decreases j - i,
            {
                if models[i].name == models[j].name {
                    let name = models[j].name.clone();
                    proof {
                        let (a, b) = (i as int, j as int);
                        assert(models@[a].name@ == models@[b].name@);
                        assert(has_duplicate(models@));
                    }
                    return Err(LoadError::DuplicateName { name });
                }
                i = i + 1;
            }
            j = j + 1;
        }
        Ok(ModelRegistry { models })
    }

    /// The model that carries `name`, or `None` where no model does.
    pub fn resolve(&self, name: &str) -> (r: Option<&Model>)
        requires
            self.wf(),
        ensures
            r matches Some(m) ==> lookup(self.models(), name@) == Some(*m),
            r is None <==> lookup(self.models(), name@) is None,
    {
        let target = String::from_str(name);
        let mut i: usize = 0;
        while i < self.models.len()
            invariant
                self.wf(),
                i <= self.models@.len(),
                target@ == name@,
                forall|a: int| 0 <= a < i ==> #[trigger] self.models@[a].name@ != name@,
            decreases self.models@.len() - i,
        {
            if self.models[i].name == target {
                proof {
                    assert(self.models@[i as int].name@ == name@);
                    assert(names(self.models@, name@));
                    let k = choose|k: int| 0 <= k < self.models@.len() && #[trigger] self.models@[k].name@ == name@;
                    let ii = i as int;
                    assert(self.models@[k].name@ == self.models@[ii].name@);
                    if k < ii {
                        assert(self.models@[k].name@ == self.models@[ii].name@);
                        assert(has_duplicate(self.models@));
                    } else if ii < k {
                        assert(self.models@[ii].name@ == self.models@[k].name@);
                        assert(has_duplicate(self.models@));
                    }
                    assert(k == ii);
                    assert(lookup(self.models(), name@) == Some(self.models@[ii]));
                }
                return Some(&self.models[i]);
            }
            i = i + 1;
        }
        None
    }

    /// How many models the registry holds.
    pub fn len(&self) -> (r: usize)
        ensures
            r == self.models().len(),
    {
        self.models.len()
    }
}

/// For a registry loaded from a source whose names are unique, `resolve`
/// gives back exactly the source's entry for each name that the source
/// holds, and nothing for every other name.
pub proof fn law_resolve_matches_source(config: Config, reg: ModelRegistry, name: Seq<char>)
    requires
        !has_duplicate(config.models@),
        reg.models() == config.models@,
    ensures
        forall|i: int| 0 <= i < config.models@.len()
            ==> lookup(reg.models(), #[trigger] config.models@[i].name@) == Some(config.models@[i]),
        !names(config.models@, name) ==> lookup(reg.models(), name) is None,
{
    let s = config.models@;
    assert forall|i: int| 0 <= i < s.len() implies lookup(reg.models(), #[trigger] s[i].name@) == Some(s[i]) by {
        assert(names(s, s[i].name@));
        let k = choose|k: int| 0 <= k < s.len() && #[trigger] s[k].name@ == s[i].name@;
        if k < i {
            assert(s[k].name@ == s[i].name@);
        } else if i < k {
            assert(s[i].name@ == s[k].name@);
        }
    }
}

/// A source that holds the same name twice cannot be loaded, whether or not
/// the two entries are otherwise identical.
pub proof fn law_duplicate_name_fails(config: Config, i: int, j: int)
    requires
        0 <= i < config.models@.len(),
        0 <= j < config.models@.len(),
        i != j,
        config.models@[i].name@ == config.models@[j].name@,
    ensures
        has_duplicate(config.models@),
{
    let s = config.models@;
    if i < j {
        assert(s[i].name@ == s[j].name@);
    } else {
        assert(s[j].name@ == s[i].name@);
    }
}

} // verus!
