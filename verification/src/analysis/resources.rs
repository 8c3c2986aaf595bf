use vstd::prelude::*;

use crate::strmap::{StrMap, lookup, sorted_insert};
use crate::pe::{scan_code, ScanError, scan_result, scan_safe_image};

verus! {

/// Resource names grouped by category.
pub type ResourceTree = StrMap<Vec<String>>;

/// Why the resource walk cannot start.
#[derive(Clone, Copy, Debug, PartialEq, Eq, Structural)]
pub enum ResourceError {
    /// No signature hit locates the resource system.
    ResourceSystemNotFound,
}

/// The resource file extensions the engine registers.
pub open spec fn engine_extension_names() -> Seq<Seq<char>> {
    seq![
        ".vmat_c"@,
        ".vmdl_c"@,
        ".vpcf_c"@,
        ".vsnd_c"@,
        ".vxml_c"@,
        ".vjs_c"@,
        ".vcss_c"@,
        ".vphys_c"@,
        ".vwrld_c"@,
        ".vtex_c"@,
        ".vseq_c"@,
        ".vman_c"@,
        ".vcompmat_c"@,
        ".vdata_c"@,
        ".vprop_c"@,
        ".vcloth_c"@,
        ".vnav_c"@,
        ".vpulse_c"@,
        ".vts_c"@,
    ]
}

/// A compiled resource extension: a dot, a name, and the `_c` that marks
/// compiled resources.
pub open spec fn compiled_extension(e: Seq<char>) -> bool {
    &&& e.len() >= 4
    &&& e[0] == '.'
    &&& e[e.len() - 2] == '_'
    &&& e[e.len() - 1] == 'c'
}

/// The engine extensions listed are the nineteen compiled resource
/// extensions `.vmat_c` to `.vts_c`, in that order, each a dot, a name and
/// `_c`.
pub proof fn law_engine_extensions_are_compiled()
    ensures
        engine_extension_names() == seq![
            ".vmat_c"@,
            ".vmdl_c"@,
            ".vpcf_c"@,
            ".vsnd_c"@,
            ".vxml_c"@,
            ".vjs_c"@,
            ".vcss_c"@,
            ".vphys_c"@,
            ".vwrld_c"@,
            ".vtex_c"@,
            ".vseq_c"@,
            ".vman_c"@,
            ".vcompmat_c"@,
            ".vdata_c"@,
            ".vprop_c"@,
            ".vcloth_c"@,
            ".vnav_c"@,
            ".vpulse_c"@,
            ".vts_c"@,
        ],
        engine_extension_names().len() == 19,
        forall|i: int|
            0 <= i < engine_extension_names().len() ==> compiled_extension(
                #[trigger] engine_extension_names()[i],
            ),
{
    reveal_strlit(".vmat_c");
    reveal_strlit(".vmdl_c");
    reveal_strlit(".vpcf_c");
    reveal_strlit(".vsnd_c");
    reveal_strlit(".vxml_c");
    reveal_strlit(".vjs_c");
    reveal_strlit(".vcss_c");
    reveal_strlit(".vphys_c");
    reveal_strlit(".vwrld_c");
    reveal_strlit(".vtex_c");
    reveal_strlit(".vseq_c");
    reveal_strlit(".vman_c");
    reveal_strlit(".vcompmat_c");
    reveal_strlit(".vdata_c");
    reveal_strlit(".vprop_c");
    reveal_strlit(".vcloth_c");
    reveal_strlit(".vnav_c");
    reveal_strlit(".vpulse_c");
    reveal_strlit(".vts_c");
    let names = engine_extension_names();
    assert(compiled_extension(names[0]));
    assert(compiled_extension(names[1]));
    assert(compiled_extension(names[2]));
    assert(compiled_extension(names[3]));
    assert(compiled_extension(names[4]));
    assert(compiled_extension(names[5]));
    assert(compiled_extension(names[6]));
    assert(compiled_extension(names[7]));
    assert(compiled_extension(names[8]));
    assert(compiled_extension(names[9]));
    assert(compiled_extension(names[10]));
    assert(compiled_extension(names[11]));
    assert(compiled_extension(names[12]));
    assert(compiled_extension(names[13]));
    assert(compiled_extension(names[14]));
    assert(compiled_extension(names[15]));
    assert(compiled_extension(names[16]));
    assert(compiled_extension(names[17]));
    assert(compiled_extension(names[18]));
}

/// The engine's resource subsystems.
pub open spec fn resource_subsystem_names() -> Seq<Seq<char>> {
    seq![
        "CModelSystem"@,
        "CMaterialSystem2"@,
        "CParticleSystemMgr"@,
        "CPostProcessingSystem"@,
        "CAnimSystem"@,
        "CPhysicsSystem"@,
    ]
}

/// The resource subsystems listed are the engine's six subsystem classes,
/// in this order, each a class name starting with `C`.
pub proof fn law_resource_subsystems()
    ensures
        resource_subsystem_names() == seq![
            "CModelSystem"@,
            "CMaterialSystem2"@,
            "CParticleSystemMgr"@,
            "CPostProcessingSystem"@,
            "CAnimSystem"@,
            "CPhysicsSystem"@,
        ],
        forall|i: int|
            0 <= i < resource_subsystem_names().len() ==> (#[trigger] resource_subsystem_names()[i]).len()
                > 0 && resource_subsystem_names()[i][0] == 'C',
{
    reveal_strlit("CModelSystem");
    reveal_strlit("CMaterialSystem2");
    reveal_strlit("CParticleSystemMgr");
    reveal_strlit("CPostProcessingSystem");
    reveal_strlit("CAnimSystem");
    reveal_strlit("CPhysicsSystem");
    let names = resource_subsystem_names();
    assert(names[0][0] == 'C');
    assert(names[1][0] == 'C');
    assert(names[2][0] == 'C');
    assert(names[3][0] == 'C');
    assert(names[4][0] == 'C');
    assert(names[5][0] == 'C');
}

/// The texts of a list of strings.
pub open spec fn texts(v: Seq<String>) -> Seq<Seq<char>> {
    v.map_values(|s: String| s@)
}

/// The maps of the running session: the current map's name when it is known
/// and not empty.
pub open spec fn session_resource_names(map_name: Option<Seq<char>>) -> Seq<Seq<char>> {
    match map_name {
        Some(n) => if n.len() > 0 {
            seq![n]
        } else {
            Seq::empty()
        },
        None => Seq::empty(),
    }
}

/// The address of the resource system pointer, found among the signature hits.
pub fn resource_system_slot(sig_hits: &StrMap<u64>) -> (r: Result<u64, ResourceError>)
    requires
        sig_hits.wf(),
    ensures
        match r {
            Ok(a) => lookup(sig_hits@, "ResourceSystem_ptr"@) == Some(a),
            Err(e) => e == ResourceError::ResourceSystemNotFound && lookup(
                sig_hits@,
                "ResourceSystem_ptr"@,
            ) is None,
        },
{
    match sig_hits.get("ResourceSystem_ptr") {
        Some(a) => Ok(*a),
        None => Err(ResourceError::ResourceSystemNotFound),
    }
}

fn push_text(v: &mut Vec<String>, s: &str)
    ensures
        texts(final(v)@) == texts(old(v)@).push(s@),
{
    v.push(String::from_str(s));
    proof {
        assert(texts(final(v)@) =~= texts(old(v)@).push(s@));
    }
}

fn engine_extensions() -> (v: Vec<String>)
    ensures
        texts(v@) == engine_extension_names(),
{
    let mut v: Vec<String> = Vec::new();
    proof {
        assert(texts(v@) =~= Seq::<Seq<char>>::empty());
    }
    push_text(&mut v, ".vmat_c");
    push_text(&mut v, ".vmdl_c");
    push_text(&mut v, ".vpcf_c");
    push_text(&mut v, ".vsnd_c");
    push_text(&mut v, ".vxml_c");
    push_text(&mut v, ".vjs_c");
    push_text(&mut v, ".vcss_c");
    push_text(&mut v, ".vphys_c");
    push_text(&mut v, ".vwrld_c");
    push_text(&mut v, ".vtex_c");
    push_text(&mut v, ".vseq_c");
    push_text(&mut v, ".vman_c");
    push_text(&mut v, ".vcompmat_c");
    push_text(&mut v, ".vdata_c");
    push_text(&mut v, ".vprop_c");
    push_text(&mut v, ".vcloth_c");
    push_text(&mut v, ".vnav_c");
    push_text(&mut v, ".vpulse_c");
    push_text(&mut v, ".vts_c");
    proof {
        assert(texts(v@) =~= engine_extension_names());
    }
    v
}

fn resource_subsystems() -> (v: Vec<String>)
    ensures
        texts(v@) == resource_subsystem_names(),
{
    let mut v: Vec<String> = Vec::new();
    proof {
        assert(texts(v@) =~= Seq::<Seq<char>>::empty());
    }
    push_text(&mut v, "CModelSystem");
    push_text(&mut v, "CMaterialSystem2");
    push_text(&mut v, "CParticleSystemMgr");
    push_text(&mut v, "CPostProcessingSystem");
    push_text(&mut v, "CAnimSystem");
    push_text(&mut v, "CPhysicsSystem");
    proof {
        assert(texts(v@) =~= resource_subsystem_names());
    }
    v
}

/// The resource tree: the registered extensions, the session's map (when its
/// name was read and is not empty) and the resource subsystems, each under its
/// category.
pub fn resource_tree(map_name: Option<String>) -> (t: ResourceTree)
    ensures
        t.wf(),
        t@.len() == 3,
        t@[0].0 == "Active Session Resources"@,
        texts(t@[0].1) == session_resource_names(
            match map_name {
                Some(n) => Some(n@),
                None => None,
            },
        ),
        t@[1].0 == "Engine Extensions"@,
        texts(t@[1].1) == engine_extension_names(),
        t@[2].0 == "Resource Subsystems"@,
        texts(t@[2].1) == resource_subsystem_names(),
{
    let mut tree: ResourceTree = StrMap::new();
    let ext = engine_extensions();
    let ghost ext_v = ext@;
    tree.insert(String::from_str("Engine Extensions"), ext);
    let mut maps: Vec<String> = Vec::new();
    let ghost name_view = match &map_name {
        Some(n) => Some(n@),
        None => None::<Seq<char>>,
    };
    match map_name {
        Some(n) => {
            if !n.as_str().is_empty() {
                maps.push(n);
            }
        },
        None => {},
    }
    proof {
        assert(texts(maps@) =~= session_resource_names(name_view));
    }
    let ghost maps_v = maps@;
    tree.insert(String::from_str("Active Session Resources"), maps);
    let subs = resource_subsystems();
    let ghost subs_v = subs@;
    tree.insert(String::from_str("Resource Subsystems"), subs);
    proof {
        reveal_strlit("Engine Extensions");
        reveal_strlit("Active Session Resources");
        reveal_strlit("Resource Subsystems");
        let e = "Engine Extensions"@;
        let a = "Active Session Resources"@;
        let r = "Resource Subsystems"@;
        let s1 = sorted_insert(Seq::<(Seq<char>, Seq<String>)>::empty(), e, ext_v);
        assert(s1 =~= seq![(e, ext_v)]);
        assert(crate::strmap::text_lt(a, e));
        let s2 = sorted_insert(s1, a, maps_v);
        assert(s2 =~= seq![(a, maps_v), (e, ext_v)]);
        assert(crate::strmap::text_lt(a, r));
        assert(crate::strmap::text_lt(e, r));
        let s3 = sorted_insert(s2, r, subs_v);
        crate::strmap::lemma_text_lt_total(a, r);
        crate::strmap::lemma_text_lt_total(e, r);
        assert(a != r);
        assert(e != r);
        let t = s2.drop_first();
        assert(t =~= seq![(e, ext_v)]);
        let tt = t.drop_first();
        assert(tt =~= Seq::<(Seq<char>, Seq<String>)>::empty());
        assert(sorted_insert(tt, r, subs_v) =~= seq![(r, subs_v)]);
        assert(sorted_insert(t, r, subs_v) =~= seq![(e, ext_v), (r, subs_v)]);
        assert(s3 =~= seq![(a, maps_v)] + sorted_insert(t, r, subs_v));
        assert(s3 =~= seq![(a, maps_v), (e, ext_v), (r, subs_v)]);
    }
    tree
}

/// The tree of a resource system that is not there: no categories at all.
pub fn empty_resource_tree() -> (t: ResourceTree)
    ensures
        t.wf(),
        t@.len() == 0,
{
    StrMap::new()
}

/// The code pattern that refers to the current map's name.
pub const MAP_NAME_PATTERN: &'static str = "48 8d 0d ${'} e8 ? ? ? ? 48 8b 0d ? ? ? ? 48 85 c9 74 13";

/// Finds where the current map's name pointer lives in the image of
/// `client.dll`, as an offset from the module base. `Ok(None)` means the
/// pattern does not match, and no map is listed.
pub fn locate_map_name(image: &[u8]) -> (r: Result<Option<u32>, ScanError>)
    requires
        scan_safe_image(image@),
    ensures
        scan_result(image@, MAP_NAME_PATTERN@, r),
{
    scan_code(image, MAP_NAME_PATTERN)
}

} // verus!
