use vstd::prelude::*;

verus! {

/// Where the pinning and the proving key of one circuit are cached.
pub struct CachePaths {
    pub pinning: String,
    pub proving_key: String,
}

/// `{dir}/configs/{env}/{name}.json`
pub open spec fn pinning_path(dir: Seq<char>, env: Seq<char>, name: Seq<char>) -> Seq<char> {
    dir + "/configs/"@ + env + "/"@ + name + ".json"@
}

/// `{dir}/data/{env}/{name}.pk`
pub open spec fn proving_key_path(dir: Seq<char>, env: Seq<char>, name: Seq<char>) -> Seq<char> {
    dir + "/data/"@ + env + "/"@ + name + ".pk"@
}

/// Relies on `String::push_str`: appends the characters of `t`.
#[verifier::external_body]
fn append(s: &mut String, t: &str)
    ensures
        final(s)@ == old(s)@ + t@,
{
    s.push_str(t)
}

/// The cache locations of circuit `name` under `data_dir` for environment
/// `env`; they depend on nothing else, so every run finds what an earlier one stored.
pub fn cache_paths(data_dir: &str, env: &str, name: &str) -> (r: CachePaths)
    ensures
        r.pinning@ == pinning_path(data_dir@, env@, name@),
        r.proving_key@ == proving_key_path(data_dir@, env@, name@),
{
    let mut pinning = String::new();
    append(&mut pinning, data_dir);
    append(&mut pinning, "/configs/");
    append(&mut pinning, env);
    append(&mut pinning, "/");
    append(&mut pinning, name);
    append(&mut pinning, ".json");
    let mut proving_key = String::new();
    append(&mut proving_key, data_dir);
    append(&mut proving_key, "/data/");
    append(&mut proving_key, env);
    append(&mut proving_key, "/");
    append(&mut proving_key, name);
    append(&mut proving_key, ".pk");
    assert(pinning@ =~= pinning_path(data_dir@, env@, name@));
    assert(proving_key@ =~= proving_key_path(data_dir@, env@, name@));
    CachePaths { pinning, proving_key }
}

} // verus!
