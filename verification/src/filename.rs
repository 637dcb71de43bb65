//! What a file-name template is given to fill its placeholders.

use crate::compilation::{text_of, Chunk};
use vstd::prelude::*;

verus! {

/// The values for the placeholders of a file-name template.
pub struct FilenameRenderOptions {
    pub name: Option<String>,
    pub extension: Option<String>,
    pub id: Option<String>,
    pub contenthash: Option<String>,
    pub chunkhash: Option<String>,
    pub hash: Option<String>,
}

/// The texts of the values for the placeholders.
pub struct FilenameRenderOptionsView {
    pub name: Option<Seq<char>>,
    pub extension: Option<Seq<char>>,
    pub id: Option<Seq<char>>,
    pub contenthash: Option<Seq<char>>,
    pub chunkhash: Option<Seq<char>>,
    pub hash: Option<Seq<char>>,
}

impl View for FilenameRenderOptions {
    type V = FilenameRenderOptionsView;

    open spec fn view(&self) -> FilenameRenderOptionsView {
        FilenameRenderOptionsView {
            name: text_of(self.name),
            extension: text_of(self.extension),
            id: text_of(self.id),
            contenthash: text_of(self.contenthash),
            chunkhash: text_of(self.chunkhash),
            hash: text_of(self.hash),
        }
    }
}

/// What the file-name template is given for the runtime chunk `chunk`: its
/// name, the extension `.js`, its id, and its hash for each of the three
/// hash placeholders.
pub open spec fn runtime_chunk_filename_options(chunk: Chunk) -> FilenameRenderOptionsView {
    FilenameRenderOptionsView {
        name: chunk.spec_name_for_filename_template(),
        extension: Some(".js"@),
        id: text_of(chunk.id),
        contenthash: Some(chunk.hash@),
        chunkhash: Some(chunk.hash@),
        hash: Some(chunk.hash@),
    }
}

/// `path` is `./` and a file name that `render` makes when it is given the
/// options of the runtime chunk `chunk`.
pub open spec fn is_runtime_chunk_path<F: Fn(FilenameRenderOptions) -> String>(
    chunk: Chunk,
    render: &F,
    path: Seq<char>,
) -> bool {
    exists|options: FilenameRenderOptions, filename: String|
        {
            &&& options@ == runtime_chunk_filename_options(chunk)
            &&& #[trigger] call_ensures(render, (options,), filename)
            &&& path == "./"@ + filename@
        }
}

} // verus!
