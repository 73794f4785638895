use vstd::prelude::*;
use vstd::string::*;
use crate::types::{type_at, type_index, TileMap, TileType};

verus! {

/// A texture image on disk.
#[derive(Clone, Debug)]
pub struct TextureFileDescriptor {
    pub source_path: String,
}

/// The textures of one surface type.
#[derive(Clone, Debug)]
pub struct TextureExportDescriptor {
    pub tile_type: TileType,
    pub identifier: String,
    pub diffuse: TextureFileDescriptor,
    pub normal: Option<TextureFileDescriptor>,
    pub roughness: Option<TextureFileDescriptor>,
}

/// The textures of the cliff walls.
#[derive(Clone, Debug)]
pub struct WallTextureExportDescriptor {
    pub identifier: String,
    pub diffuse: TextureFileDescriptor,
    pub normal: Option<TextureFileDescriptor>,
    pub roughness: Option<TextureFileDescriptor>,
}

/// The package entry of one surface type's textures.
#[derive(Clone, Debug)]
pub struct MetadataTextureEntry {
    pub id: String,
    pub diffuse: String,
    pub normal: Option<String>,
    pub roughness: Option<String>,
    pub splatmap_channel: usize,
}

/// The package entry of the wall textures.
#[derive(Clone, Debug)]
pub struct MetadataWallTexture {
    pub id: String,
    pub diffuse: String,
    pub normal: Option<String>,
    pub roughness: Option<String>,
}

/// A file to copy into the package: where it goes and where it comes from.
#[derive(Clone, Debug)]
pub struct TextureFile {
    pub target_path: String,
    pub source_path: String,
}

/// Why the texture part of a package could not be planned.
#[derive(Clone, Copy, Debug, PartialEq, Eq, Structural)]
pub enum MetadataError {
    /// A texture identifier holds a character other than an ASCII letter,
    /// digit, `_` or `-`.
    UnsupportedIdentifier,
}

pub open spec fn is_identifier_char(c: char) -> bool {
    ('a' <= c <= 'z') || ('A' <= c <= 'Z') || ('0' <= c <= '9') || c == '_' || c == '-'
}

pub open spec fn valid_identifier(s: Seq<char>) -> bool {
    forall|i: int| 0 <= i < s.len() ==> is_identifier_char(#[trigger] s[i])
}

/// The package path of texture `kind` of `id`, keeping a non-empty source
/// extension.
pub open spec fn target_path(id: Seq<char>, kind: Seq<char>, ext: Option<Seq<char>>) -> Seq<char> {
    "textures/"@ + id + "_"@ + kind + match ext {
        Some(e) => if e.len() > 0 {
            "."@ + e
        } else {
            seq![]
        },
        None => seq![],
    }
}

/// The extension of the file that `path` names, as the standard library's
/// `Path::extension` reads it under the path syntax of the platform the
/// library is built for.
pub uninterp spec fn path_extension_of(path: Seq<char>) -> Option<Seq<char>>;

/// The package path of texture `kind` of `id` whose source file is `source`.
pub open spec fn package_path(id: Seq<char>, kind: Seq<char>, source: Seq<char>) -> Seq<char> {
    target_path(id, kind, path_extension_of(source))
}

pub open spec fn file_view(f: TextureFile) -> (Seq<char>, Seq<char>) {
    (f.target_path@, f.source_path@)
}

/// The files of one entry: diffuse, then normal and roughness when present.
pub open spec fn entry_files(
    diffuse: Seq<char>,
    normal: Option<String>,
    roughness: Option<String>,
    src_diffuse: TextureFileDescriptor,
    src_normal: Option<TextureFileDescriptor>,
    src_roughness: Option<TextureFileDescriptor>,
) -> Seq<(Seq<char>, Seq<char>)> {
    seq![(diffuse, src_diffuse.source_path@)] + match (normal, src_normal) {
        (Some(p), Some(s)) => seq![(p@, s.source_path@)],
        _ => seq![],
    } + match (roughness, src_roughness) {
        (Some(p), Some(s)) => seq![(p@, s.source_path@)],
        _ => seq![],
    }
}

/// `e` is the package entry of `d`.
pub open spec fn entry_of(e: MetadataTextureEntry, d: TextureExportDescriptor) -> bool {
    &&& e.id@ == d.identifier@
    &&& e.splatmap_channel == type_index(d.tile_type)
    &&& e.diffuse@ == package_path(d.identifier@, "diffuse"@, d.diffuse.source_path@)
    &&& (e.normal is Some <==> d.normal is Some)
    &&& ((e.normal, d.normal) matches (Some(p), Some(src)) ==> p@ == package_path(
        d.identifier@,
        "normal"@,
        src.source_path@,
    ))
    &&& (e.roughness is Some <==> d.roughness is Some)
    &&& ((e.roughness, d.roughness) matches (Some(p), Some(src)) ==> p@ == package_path(
        d.identifier@,
        "roughness"@,
        src.source_path@,
    ))
}

/// `e` is the package entry of the wall textures `d`.
pub open spec fn wall_entry_of(e: MetadataWallTexture, d: WallTextureExportDescriptor) -> bool {
    &&& e.id@ == d.identifier@
    &&& e.diffuse@ == package_path(d.identifier@, "diffuse"@, d.diffuse.source_path@)
    &&& (e.normal is Some <==> d.normal is Some)
    &&& ((e.normal, d.normal) matches (Some(p), Some(src)) ==> p@ == package_path(
        d.identifier@,
        "normal"@,
        src.source_path@,
    ))
    &&& (e.roughness is Some <==> d.roughness is Some)
    &&& ((e.roughness, d.roughness) matches (Some(p), Some(src)) ==> p@ == package_path(
        d.identifier@,
        "roughness"@,
        src.source_path@,
    ))
}

/// The files of the first `n` entries, in order.
pub open spec fn files_of(es: Seq<MetadataTextureEntry>, ds: Seq<TextureExportDescriptor>, n: int) -> Seq<
    (Seq<char>, Seq<char>),
>
    decreases n,
{
    if n <= 0 {
        seq![]
    } else {
        files_of(es, ds, n - 1) + entry_files(
            es[n - 1].diffuse@,
            es[n - 1].normal,
            es[n - 1].roughness,
            ds[n - 1].diffuse,
            ds[n - 1].normal,
            ds[n - 1].roughness,
        )
    }
}

/// Relies on std's `Path::extension` (and `OsStr::to_str`, which cannot fail
/// on text that came from a `&str`): the part of the file name after its last
/// dot, which holds no dot.
#[verifier::external_body]
fn path_extension(path: &str) -> (r: Option<String>)
    ensures
        r matches Some(e) ==> !e@.contains('.') && path_extension_of(path@) == Some(e@),
        r is None ==> path_extension_of(path@) is None,
{
    match std::path::Path::new(path).extension() {
        Some(ext) => match ext.to_str() {
            Some(s) => Some(s.to_string()),
            None => None,
        },
        None => None,
    }
}

/// Accepts an identifier made of ASCII letters, digits, `_` and `-`.
pub fn validate_identifier(identifier: &str) -> (r: Result<(), MetadataError>)
    ensures
        r is Ok <==> valid_identifier(identifier@),
        r is Err ==> r == Err::<(), MetadataError>(MetadataError::UnsupportedIdentifier),
{
    let n = identifier.unicode_len();
    let mut i: usize = 0;
    while i < n
        invariant
            n == identifier@.len(),
            i <= n,
            forall|k: int| 0 <= k < i ==> is_identifier_char(#[trigger] identifier@[k]),
        decreases n - i,
    {
        let c = identifier.get_char(i);
        let ok = ('a' <= c && c <= 'z') || ('A' <= c && c <= 'Z') || ('0' <= c && c <= '9') || c == '_'
            || c == '-';
        if !ok {
            return Err(MetadataError::UnsupportedIdentifier);
        }
        i = i + 1;
    }
    Ok(())
}

/// The package path of texture `kind` of `id` for a source file with
/// extension `ext`: `textures/<id>_<kind>`, then `.<ext>` when `ext` is not empty.
pub fn texture_target_path_for(id: &str, kind: &str, ext: Option<&str>) -> (r: String)
    ensures
        r@ == target_path(id@, kind@, match ext {
            Some(e) => Some(e@),
            None => None,
        }),
{
    let mut path = "textures/".to_owned();
    path.append(id);
    path.append("_");
    path.append(kind);
    match ext {
        Some(e) => if e.unicode_len() > 0 {
            path.append(".");
            path.append(e);
        },
        None => {},
    }
    proof {
        reveal_strlit("textures/");
        reveal_strlit("_");
        reveal_strlit(".");
        match ext {
            Some(e) => {
                if e@.len() > 0 {
                    assert(path@ =~= target_path(id@, kind@, Some(e@)));
                } else {
                    assert(path@ =~= target_path(id@, kind@, Some(e@)));
                }
            },
            None => {
                assert(path@ =~= target_path(id@, kind@, None));
            },
        }
    }
    path
}

/// The package path of texture `kind` of `id`, keeping the extension of
/// `source`.
pub fn texture_target_path(id: &str, kind: &str, source: &str) -> (r: String)
    ensures
        r@ == package_path(id@, kind@, source@),
{
    let ext = path_extension(source);
    match ext {
        Some(e) => {
            let r = texture_target_path_for(id, kind, Some(e.as_str()));
            assert(r@ == target_path(id@, kind@, Some(e@)));
            r
        },
        None => {
            let r = texture_target_path_for(id, kind, None);
            assert(r@ == target_path(id@, kind@, None));
            r
        },
    }
}

/// Plans the copy of one texture file and returns its package path.
fn ingest_texture_file(identifier: &str, kind: &str, source: &TextureFileDescriptor, files: &mut Vec<TextureFile>) -> (r:
    String)
    ensures
        r@ == package_path(identifier@, kind@, source.source_path@),
        final(files)@.len() == old(files)@.len() + 1,
        final(files)@.drop_last() == old(files)@,
        file_view(final(files)@.last()) == (r@, source.source_path@),
{
    let target_path = texture_target_path(identifier, kind, source.source_path.as_str());
    files.push(TextureFile { target_path: target_path.clone(), source_path: source.source_path.clone() });
    assert(files@.drop_last() =~= old(files)@);
    target_path
}

/// Plans the copy of an optional texture file.
pub fn ingest_optional_texture_file(
    identifier: &str,
    kind: &str,
    source: &Option<TextureFileDescriptor>,
    files: &mut Vec<TextureFile>,
) -> (r: Option<String>)
    ensures
        r is Some <==> source is Some,
        (r, *source) matches (Some(p), Some(src)) ==> p@ == package_path(
            identifier@,
            kind@,
            src.source_path@,
        ),
        final(files)@.map_values(|f: TextureFile| file_view(f)) == old(files)@.map_values(
            |f: TextureFile| file_view(f),
        ) + match (r, *source) {
            (Some(p), Some(s)) => seq![(p@, s.source_path@)],
            _ => seq![],
        },
{
    match source {
        Some(descriptor) => {
            let p = ingest_texture_file(identifier, kind, descriptor, files);
            proof {
                assert(files@.map_values(|f: TextureFile| file_view(f)) =~= old(files)@.map_values(
                    |f: TextureFile| file_view(f),
                ) + seq![(p@, descriptor.source_path@)]);
            }
            Some(p)
        },
        None => {
            proof {
                assert(files@.map_values(|f: TextureFile| file_view(f)) =~= old(files)@.map_values(
                    |f: TextureFile| file_view(f),
                ) + Seq::<(Seq<char>, Seq<char>)>::empty());
            }
            None
        },
    }
}

proof fn lemma_files_of_prefix(
    a: Seq<MetadataTextureEntry>,
    b: Seq<MetadataTextureEntry>,
    ds: Seq<TextureExportDescriptor>,
    n: int,
)
    requires
        n <= a.len(),
        n <= b.len(),
        forall|k: int| 0 <= k < n ==> a[k] == b[k],
    ensures
        files_of(a, ds, n) == files_of(b, ds, n),
    decreases n,
{
    if n > 0 {
        lemma_files_of_prefix(a, b, ds, n - 1);
    }
}

pub open spec fn files_view(fs: Seq<TextureFile>) -> Seq<(Seq<char>, Seq<char>)> {
    fs.map_values(|f: TextureFile| file_view(f))
}

/// Plans the diffuse, normal and roughness files of one identifier.
fn ingest_set(
    identifier: &str,
    diffuse: &TextureFileDescriptor,
    normal: &Option<TextureFileDescriptor>,
    roughness: &Option<TextureFileDescriptor>,
    files: &mut Vec<TextureFile>,
) -> (r: (String, Option<String>, Option<String>))
    ensures
        r.0@ == package_path(identifier@, "diffuse"@, diffuse.source_path@),
        r.1 is Some <==> normal is Some,
        (r.1, *normal) matches (Some(p), Some(src)) ==> p@ == package_path(
            identifier@,
            "normal"@,
            src.source_path@,
        ),
        r.2 is Some <==> roughness is Some,
        (r.2, *roughness) matches (Some(p), Some(src)) ==> p@ == package_path(
            identifier@,
            "roughness"@,
            src.source_path@,
        ),
        files_view(final(files)@) == files_view(old(files)@) + entry_files(
            r.0@,
            r.1,
            r.2,
            *diffuse,
            *normal,
            *roughness,
        ),
{
    let diffuse_path = ingest_texture_file(identifier, "diffuse", diffuse, files);
    proof {
        assert(files@ =~= old(files)@.push(files@.last()));
        assert(files_view(files@) =~= files_view(old(files)@) + seq![(diffuse_path@, diffuse.source_path@)]);
    }
    let normal_path = ingest_optional_texture_file(identifier, "normal", normal, files);
    let roughness_path = ingest_optional_texture_file(identifier, "roughness", roughness, files);
    proof {
        assert(files_view(files@) =~= files_view(old(files)@) + entry_files(
            diffuse_path@,
            normal_path,
            roughness_path,
            *diffuse,
            *normal,
            *roughness,
        ));
    }
    (diffuse_path, normal_path, roughness_path)
}

/// The files of the wall entry, when there is one.
pub open spec fn wall_files(e: Option<MetadataWallTexture>, d: Option<WallTextureExportDescriptor>) -> Seq<
    (Seq<char>, Seq<char>),
> {
    match (e, d) {
        (Some(w), Some(x)) => entry_files(w.diffuse@, w.normal, w.roughness, x.diffuse, x.normal, x.roughness),
        _ => seq![],
    }
}

/// Plans the texture part of a package: one metadata entry per surface-type
/// descriptor and one for the walls, and the list of files to copy (each
/// entry's diffuse, normal and roughness files in turn, the walls last).
/// Fails when any identifier holds an unsupported character.
pub fn build_metadata_and_files(
    textures: &Vec<TextureExportDescriptor>,
    wall_texture: Option<WallTextureExportDescriptor>,
) -> (r: Result<(Vec<MetadataTextureEntry>, Vec<TextureFile>, Option<MetadataWallTexture>), MetadataError>)
    ensures
        r is Err <==> (exists|i: int|
            0 <= i < textures@.len() && !valid_identifier(#[trigger] textures@[i].identifier@)) || (
        wall_texture matches Some(w) && !valid_identifier(w.identifier@)),
        r is Err ==> r == Err::<
            (Vec<MetadataTextureEntry>, Vec<TextureFile>, Option<MetadataWallTexture>),
            MetadataError,
        >(MetadataError::UnsupportedIdentifier),
        r matches Ok((meta, files, wall)) ==> {
            &&& meta@.len() == textures@.len()
            &&& forall|i: int| 0 <= i < meta@.len() ==> entry_of(#[trigger] meta@[i], textures@[i])
            &&& (wall is Some <==> wall_texture is Some)
            &&& ((wall, wall_texture) matches (Some(w), Some(d)) ==> wall_entry_of(w, d))
            &&& files_view(files@) == files_of(meta@, textures@, meta@.len() as int) + wall_files(
                wall,
                wall_texture,
            )
        },
{
    let mut metadata: Vec<MetadataTextureEntry> = Vec::new();
    let mut files: Vec<TextureFile> = Vec::new();
    let mut i: usize = 0;
    while i < textures.len()
        invariant
            i <= textures@.len(),
            metadata@.len() == i,
            forall|k: int| 0 <= k < i ==> valid_identifier(#[trigger] textures@[k].identifier@),
            forall|k: int| 0 <= k < i ==> entry_of(#[trigger] metadata@[k], textures@[k]),
            files_view(files@) == files_of(metadata@, textures@, i as int),
        decreases textures@.len() - i,
    {
        let descriptor = &textures[i];
        match validate_identifier(descriptor.identifier.as_str()) {
            Ok(()) => {},
            Err(e) => {
                return Err(e);
            },
        }
        let (diffuse, normal, roughness) = ingest_set(
            descriptor.identifier.as_str(),
            &descriptor.diffuse,
            &descriptor.normal,
            &descriptor.roughness,
            &mut files,
        );
        let ghost before = metadata@;
        metadata.push(
            MetadataTextureEntry {
                id: descriptor.identifier.clone(),
                diffuse,
                normal,
                roughness,
                splatmap_channel: descriptor.tile_type.as_index(),
            },
        );
        proof {
            lemma_files_of_prefix(before, metadata@, textures@, i as int);
        }
        i = i + 1;
    }
    let wall_metadata = match wall_texture {
        Some(descriptor) => {
            match validate_identifier(descriptor.identifier.as_str()) {
                Ok(()) => {},
                Err(e) => {
                    return Err(e);
                },
            }
            let (diffuse, normal, roughness) = ingest_set(
                descriptor.identifier.as_str(),
                &descriptor.diffuse,
                &descriptor.normal,
                &descriptor.roughness,
                &mut files,
            );
            Some(MetadataWallTexture { id: descriptor.identifier, diffuse, normal, roughness })
        },
        None => {
            assert(files_view(files@) =~= files_of(metadata@, textures@, i as int) + Seq::<
                (Seq<char>, Seq<char>),
            >::empty());
            None
        },
    };
    Ok((metadata, files, wall_metadata))
}

/// Whether some tile of `m` has surface type `t`.
pub open spec fn type_used(m: TileMap, t: TileType) -> bool {
    exists|i: int| 0 <= i < m.tiles@.len() && (#[trigger] m.tiles@[i]).tile_type == t
}

/// The surface types among the first `k` layers that some tile uses, in
/// layer order.
pub open spec fn used_types(m: TileMap, k: int) -> Seq<TileType>
    decreases k,
{
    if k <= 0 {
        seq![]
    } else if type_used(m, type_at(k - 1)) {
        used_types(m, k - 1).push(type_at(k - 1))
    } else {
        used_types(m, k - 1)
    }
}

/// The surface types that occur in the grid, each once, in layer order; these
/// are the types whose textures a package carries.
pub fn used_tile_types(map: &TileMap) -> (r: Vec<TileType>)
    ensures
        r@ == used_types(*map, 4),
{
    let all = [TileType::Grass, TileType::Dirt, TileType::Sand, TileType::Rock];
    let mut used: Vec<TileType> = Vec::new();
    let mut k: usize = 0;
    while k < 4
        invariant
            k <= 4,
            forall|j: int| 0 <= j < 4 ==> all@[j] == type_at(j),
            used@ == used_types(*map, k as int),
        decreases 4 - k,
    {
        let t = all[k];
        let mut found = false;
        let mut i: usize = 0;
        while i < map.tiles.len()
            invariant
                i <= map.tiles@.len(),
                t == type_at(k as int),
                found <==> exists|j: int| 0 <= j < i && (#[trigger] map.tiles@[j]).tile_type == t,
            decreases map.tiles@.len() - i,
        {
            if map.tiles[i].tile_type == t {
                found = true;
            }
            i = i + 1;
        }
        if found {
            used.push(t);
        }
        k = k + 1;
    }
    used
}

} // verus!
