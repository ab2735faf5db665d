//! The platforms that a lock file holds for an environment.

use vstd::prelude::*;

verus! {

/// An environment of a lock file, with the platforms it is locked for.
#[derive(Debug, Clone)]
pub struct LockedEnvironment {
    pub name: String,
    pub platforms: Vec<String>,
}

/// Why no platforms can be read for an environment.
#[derive(Debug, Clone)]
pub enum PlatformsError {
    /// The lock file has no environment of that name.
    EnvironmentNotFound { name: String },
    /// The environment is locked for no platform.
    NoPlatforms { name: String },
}

impl PlatformsError {
    /// The message shown for the error.
    pub fn message(&self) -> (r: String)
        ensures
            r@ == match self {
                PlatformsError::EnvironmentNotFound { name } => "Environment '"@ + name@
                    + "' not found in lockfile"@,
                PlatformsError::NoPlatforms { name } => "No platforms found for environment '"@
                    + name@ + "'"@,
            },
    {
        match self {
            PlatformsError::EnvironmentNotFound { name } => {
                let mut m = String::from_str("Environment '");
                m.append(name.as_str());
                m.append("' not found in lockfile");
                m
            },
            PlatformsError::NoPlatforms { name } => {
                let mut m = String::from_str("No platforms found for environment '");
                m.append(name.as_str());
                m.append("'");
                m
            },
        }
    }
}

/// The environment asked for: the one named, else `default`.
pub open spec fn wanted_environment(environment: Option<&str>) -> Seq<char> {
    match environment {
        Some(e) => e@,
        None => "default"@,
    }
}

/// Whether the first `n` environments all have another name.
pub open spec fn none_named(envs: Seq<LockedEnvironment>, n: int, name: Seq<char>) -> bool {
    forall|j: int| 0 <= j < n ==> (#[trigger] envs[j]).name@ != name
}

/// The platforms of the first environment named as asked (`default` where
/// no name is given). Fails where no environment has that name, or where it
/// has no platform.
pub fn select_platforms(environments: &Vec<LockedEnvironment>, environment: Option<&str>) -> (r:
    Result<Vec<String>, PlatformsError>)
    ensures
        ({
            let want = wanted_environment(environment);
            &&& (r matches Err(PlatformsError::EnvironmentNotFound { .. })) <==> none_named(
                environments@,
                environments@.len() as int,
                want,
            )
            &&& (r matches Err(PlatformsError::EnvironmentNotFound { name }) ==> name@ == want)
            &&& (r matches Err(PlatformsError::NoPlatforms { name }) ==> name@ == want)
            &&& !none_named(environments@, environments@.len() as int, want) ==> exists|i: int|
                0 <= i < environments@.len() && (#[trigger] environments@[i]).name@ == want
                    && none_named(environments@, i, want) && (environments@[i].platforms@.len() == 0
                    <==> r is Err) && (r matches Ok(p) ==> p@ == environments@[i].platforms@)
        }),
{
    let want: &str = match environment {
        Some(e) => e,
        None => "default",
    };
    let wanted = String::from_str(want);
    let mut i: usize = 0;
    while i < environments.len()
        invariant
            0 <= i <= environments.len(),
            want@ == wanted_environment(environment),
            wanted@ == want@,
            none_named(environments@, i as int, want@),
        decreases environments.len() - i,
    {
        let env = &environments[i];
        if env.name == wanted {
            if env.platforms.len() == 0 {
                return Err(PlatformsError::NoPlatforms { name: wanted });
            }
            let mut platforms: Vec<String> = Vec::new();
            let mut j: usize = 0;
            while j < env.platforms.len()
                invariant
                    0 <= j <= env.platforms.len(),
                    platforms@ == env.platforms@.take(j as int),
                decreases env.platforms.len() - j,
            {
                platforms.push(env.platforms[j].clone());
                assert(platforms@ =~= env.platforms@.take(j + 1));
                j += 1;
            }
            assert(env.platforms@.take(j as int) =~= env.platforms@);
            return Ok(platforms);
        }
        i += 1;
    }
    Err(PlatformsError::EnvironmentNotFound { name: wanted })
}

} // verus!
