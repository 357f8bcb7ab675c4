//! The embedding model: what it is made of, where its files are, and what has to happen before
//! texts can be embedded.
use crate::download::{
    download_of, download_start, law_download_completes, law_download_in_order,
    law_every_file_is_fetched, same_download, Download, DownloadPlan, DownloadStageView,
    FileRequest, RepoKind,
};
use crate::load::{
    law_model_is_built_as_asked, law_readable_files_lead_to_session, load_of, load_start,
    read_paths, same_load, Load, LoadEnd, LoadPlan, LoadSite, LoadStageView,
};
use crate::paths::{
    components, is_bare_drive, is_extended, is_verbatim, join_path, law_extended_components,
    path_join,
};
use crate::providers::ExecutionMode;
use crate::text::{
    joined, law_joined_parts, law_replaced_rejoins, law_separator_parts_pieces,
    law_text_without_separators_is_one_piece, opt_string, opt_text, pieces, replace_char, replaced,
    texts,
};
use vstd::prelude::*;

verus! {

/// The number of texts that are embedded together. A small number hurts dynamic quantization.
pub const BATCH_SIZE: usize = 128;

/// How the token vectors of a text become one vector.
#[derive(Debug, Clone, Copy, PartialEq, Eq, Structural)]
pub enum Pooling {
    Cls,
    Mean,
}

/// How the weights of a model are quantized.
#[derive(Debug, Clone, Copy, PartialEq, Eq, Structural)]
pub enum QuantizationMode {
    Unquantized,
    Static,
    Dynamic,
}

/// A model in a repository: its files, and how its output is to be read.
pub struct ModelInfo {
    pub id: String,
    pub revision: String,
    pub onnx_file: String,
    pub tokenizer_file: String,
    pub config_file: String,
    pub special_tokens_map_file: String,
    pub tokenizer_config_file: String,
    pub pooling: Pooling,
    pub quantization: QuantizationMode,
    pub embedding_dims: usize,
}

/// A `ModelInfo` with texts for strings.
pub struct InfoView {
    pub id: Seq<char>,
    pub revision: Seq<char>,
    pub onnx_file: Seq<char>,
    pub tokenizer_file: Seq<char>,
    pub config_file: Seq<char>,
    pub special_tokens_map_file: Seq<char>,
    pub tokenizer_config_file: Seq<char>,
    pub pooling: Pooling,
    pub quantization: QuantizationMode,
    pub embedding_dims: nat,
}

impl View for ModelInfo {
    type V = InfoView;

    open spec fn view(&self) -> InfoView {
        InfoView {
            id: self.id@,
            revision: self.revision@,
            onnx_file: self.onnx_file@,
            tokenizer_file: self.tokenizer_file@,
            config_file: self.config_file@,
            special_tokens_map_file: self.special_tokens_map_file@,
            tokenizer_config_file: self.tokenizer_config_file@,
            pooling: self.pooling,
            quantization: self.quantization,
            embedding_dims: self.embedding_dims as nat,
        }
    }
}

/// The description of a model shows what it holds.
pub proof fn law_info_in_view(info: ModelInfo)
    ensures
        info@.id == info.id@,
        info@.revision == info.revision@,
        info@.onnx_file == info.onnx_file@,
        info@.tokenizer_file == info.tokenizer_file@,
        info@.config_file == info.config_file@,
        info@.special_tokens_map_file == info.special_tokens_map_file@,
        info@.tokenizer_config_file == info.tokenizer_config_file@,
        info@.pooling == info.pooling,
        info@.quantization == info.quantization,
        info@.embedding_dims == info.embedding_dims,
{
}

/// The precision of a model's weights.
#[derive(Debug, Clone, Copy, PartialEq, Eq, Hash, Structural)]
pub enum ModelKind {
    Int8,
    Fp16,
    Fp32,
}

impl Default for ModelKind {
    fn default() -> (kind: Self)
        ensures
            kind == ModelKind::Int8,
    {
        ModelKind::Int8
    }
}

impl ModelKind {
    /// The name of a kind on the command line.
    pub open spec fn name(self) -> Seq<char> {
        match self {
            ModelKind::Int8 => "int8"@,
            ModelKind::Fp16 => "fp16"@,
            ModelKind::Fp32 => "fp32"@,
        }
    }

    /// Names a kind.
    pub fn value_name(self) -> (name: &'static str)
        ensures
            name@ == self.name(),
    {
        match self {
            ModelKind::Int8 => "int8",
            ModelKind::Fp16 => "fp16",
            ModelKind::Fp32 => "fp32",
        }
    }

    /// The kind of a name; `None` where no kind has it.
    pub fn from_value_name(name: &str) -> (kind: Option<ModelKind>)
        ensures
            match kind {
                Some(kind) => kind.name() == name@,
                None => forall|kind: ModelKind| #[trigger] kind.name() != name@,
            },
    {
        let wanted: String = name.to_owned();
        if wanted == "int8".to_owned() {
            Some(ModelKind::Int8)
        } else if wanted == "fp16".to_owned() {
            Some(ModelKind::Fp16)
        } else if wanted == "fp32".to_owned() {
            Some(ModelKind::Fp32)
        } else {
            None
        }
    }
}

/// What the kinds are called.
pub proof fn law_kind_names()
    ensures
        ModelKind::Int8.name() == "int8"@,
        ModelKind::Fp16.name() == "fp16"@,
        ModelKind::Fp32.name() == "fp32"@,
{
}

/// No two kinds share a name.
pub proof fn law_kind_names_differ(a: ModelKind, b: ModelKind)
    ensures
        a.name() == b.name() ==> a == b,
{
    reveal_strlit("int8");
    reveal_strlit("fp16");
    reveal_strlit("fp32");
    if a.name() == b.name() {
        assert(a.name()[0] == b.name()[0]);
        assert(a.name()[2] == b.name()[2]);
    }
}

/// The weights file of a kind.
pub open spec fn onnx_file_of(kind: ModelKind) -> Seq<char> {
    match kind {
        ModelKind::Int8 => "onnx/model_quint8_avx2.onnx"@,
        ModelKind::Fp16 => "onnx/model_optimized.onnx"@,
        ModelKind::Fp32 => "onnx/model.onnx"@,
    }
}

/// The model that the benchmark runs, with weights of the given kind.
pub open spec fn embedding_model(kind: ModelKind) -> InfoView {
    InfoView {
        id: "gety-ai/granite-embedding-107m-multilingual-onnx"@,
        revision: "4713bc4053d578f45e263e5857262b69f1f4296f"@,
        onnx_file: onnx_file_of(kind),
        tokenizer_file: "tokenizer.json"@,
        config_file: "config.json"@,
        special_tokens_map_file: "special_tokens_map.json"@,
        tokenizer_config_file: "tokenizer_config.json"@,
        pooling: Pooling::Cls,
        quantization: QuantizationMode::Dynamic,
        embedding_dims: 384,
    }
}

/// Describes the model that the benchmark runs.
pub fn get_embedding_model_info(kind: ModelKind) -> (info: ModelInfo)
    ensures
        info@ == embedding_model(kind),
{
    let onnx_file = match kind {
        ModelKind::Int8 => "onnx/model_quint8_avx2.onnx".to_owned(),
        ModelKind::Fp16 => "onnx/model_optimized.onnx".to_owned(),
        ModelKind::Fp32 => "onnx/model.onnx".to_owned(),
    };
    ModelInfo {
        id: "gety-ai/granite-embedding-107m-multilingual-onnx".to_owned(),
        revision: "4713bc4053d578f45e263e5857262b69f1f4296f".to_owned(),
        onnx_file,
        tokenizer_file: "tokenizer.json".to_owned(),
        config_file: "config.json".to_owned(),
        special_tokens_map_file: "special_tokens_map.json".to_owned(),
        tokenizer_config_file: "tokenizer_config.json".to_owned(),
        pooling: Pooling::Cls,
        quantization: QuantizationMode::Dynamic,
        embedding_dims: 384,
    }
}

/// Every kind comes from one repository at one revision, with the same tokenizer and the same
/// output, and the kind says which weights.
pub proof fn law_kind_says_which_weights(kind: ModelKind)
    ensures
        ({
            let info = embedding_model(kind);
            &&& info.id == "gety-ai/granite-embedding-107m-multilingual-onnx"@
            &&& info.revision == "4713bc4053d578f45e263e5857262b69f1f4296f"@
            &&& kind == ModelKind::Int8 ==> info.onnx_file == "onnx/model_quint8_avx2.onnx"@
            &&& kind == ModelKind::Fp16 ==> info.onnx_file == "onnx/model_optimized.onnx"@
            &&& kind == ModelKind::Fp32 ==> info.onnx_file == "onnx/model.onnx"@
            &&& info.tokenizer_file == "tokenizer.json"@
            &&& info.config_file == "config.json"@
            &&& info.special_tokens_map_file == "special_tokens_map.json"@
            &&& info.tokenizer_config_file == "tokenizer_config.json"@
            &&& info.pooling == Pooling::Cls
            &&& info.quantization == QuantizationMode::Dynamic
            &&& info.embedding_dims == 384
        }),
{
}

/// Two kinds of the model differ in the weights file, and in nothing else.
pub proof fn law_kinds_differ_in_weights(a: ModelKind, b: ModelKind)
    ensures
        embedding_model(a) == (InfoView {
            onnx_file: embedding_model(a).onnx_file,
            ..embedding_model(b)
        }),
        embedding_model(a).onnx_file == embedding_model(b).onnx_file ==> a == b,
{
    reveal_strlit("onnx/model_quint8_avx2.onnx");
    reveal_strlit("onnx/model_optimized.onnx");
    reveal_strlit("onnx/model.onnx");
    assert("onnx/model_quint8_avx2.onnx"@.len() == 27);
    assert("onnx/model_optimized.onnx"@.len() == 25);
    assert("onnx/model.onnx"@.len() == 15);
}

/// The folder of one revision of a repository, below the cache.
pub open spec fn snapshot_path(id: Seq<char>, revision: Seq<char>) -> Seq<char> {
    "models--"@ + replaced(id, '/', "--"@) + "/snapshots/"@ + revision
}

/// The folder of a revision is named after the parts of the repository's id, with dashes between
/// them, and after the whole revision; so an id of an owner and a name shows both.
pub proof fn law_snapshot_path(
    id: Seq<char>,
    owner: Seq<char>,
    name: Seq<char>,
    revision: Seq<char>,
)
    ensures
        snapshot_path(id, revision) == "models--"@ + joined(pieces(id, seq!['/']), "--"@)
            + "/snapshots/"@ + revision,
        !owner.contains('/') && !name.contains('/') ==> snapshot_path(
            owner + seq!['/'] + name,
            revision,
        ) == "models--"@ + owner + "--"@ + name + "/snapshots/"@ + revision,
{
    law_replaced_rejoins(id, '/', "--"@);
    if !owner.contains('/') && !name.contains('/') {
        let at = seq!['/'];
        assert(at[0] == '/');
        law_replaced_rejoins(owner + seq!['/'] + name, '/', "--"@);
        law_separator_parts_pieces(owner, '/', name, at);
        assert forall|i: int| 0 <= i < owner.len() implies !at.contains(#[trigger] owner[i]) by {
            assert(owner.contains(owner[i]));
        }
        assert forall|i: int| 0 <= i < name.len() implies !at.contains(#[trigger] name[i]) by {
            assert(name.contains(name[i]));
        }
        law_text_without_separators_is_one_piece(owner, at);
        law_text_without_separators_is_one_piece(name, at);
        law_joined_parts(seq![owner], seq![name], "--"@);
        law_joined_parts(seq![name], seq![name], "--"@);
        assert(snapshot_path(owner + seq!['/'] + name, revision) =~= "models--"@ + owner + "--"@
            + name + "/snapshots/"@ + revision);
    }
}

/// Names the folder of one revision of a repository, below the cache.
pub fn snapshot_folder(id: &str, revision: &str) -> (folder: String)
    ensures
        folder@ == snapshot_path(id@, revision@),
{
    let mut folder = "models--".to_owned();
    folder.append(replace_char(id, '/', "--").as_str());
    folder.append("/snapshots/");
    folder.append(revision);
    folder
}

fn file_request(path: &String, failure: &str) -> (request: FileRequest)
    ensures
        request.path@ == path@,
        request.failure@ == failure@,
{
    FileRequest { path: path.clone(), failure: failure.to_owned() }
}

/// How far a model is prepared.
pub struct PreparedView {
    /// Whether its files were fetched.
    pub downloaded: bool,
    /// The mode it was built with, if it was built.
    pub loaded: Option<ExecutionMode>,
}

/// What has to be done for a model so that texts can be embedded.
#[derive(Debug, Clone, Copy, PartialEq, Eq, Structural)]
pub enum StepKind {
    Download,
    Load,
    Embed,
}

impl PreparedView {
    /// What has to be done first.
    pub open spec fn due(self) -> StepKind {
        if !self.downloaded {
            StepKind::Download
        } else if self.loaded is None {
            StepKind::Load
        } else {
            StepKind::Embed
        }
    }

    /// The state after the due step was done for a caller that wants the given mode.
    pub open spec fn done(self, mode: ExecutionMode) -> PreparedView {
        match self.due() {
            StepKind::Download => PreparedView { downloaded: true, ..self },
            StepKind::Load => PreparedView { loaded: Some(mode), ..self },
            StepKind::Embed => self,
        }
    }
}

/// A model is fetched first, then built, and then it can embed; doing a step changes what that step
/// is about and nothing else.
pub proof fn law_steps_in_order(state: PreparedView, mode: ExecutionMode)
    ensures
        state.due() == StepKind::Download <==> !state.downloaded,
        state.due() == StepKind::Load <==> state.downloaded && state.loaded is None,
        state.due() == StepKind::Embed <==> state.downloaded && state.loaded is Some,
        !state.downloaded ==> state.done(mode).downloaded && state.done(mode).loaded
            == state.loaded,
        state.downloaded ==> state.done(mode).downloaded,
        state.downloaded && state.loaded is None ==> state.done(mode).loaded == Some(mode),
        state.loaded is Some ==> state.done(mode).loaded == state.loaded,
{
}

/// Doing what is due at most twice makes a model ready to embed: its files are fetched before it
/// is built, neither is done twice, and the mode of the first build stays.
pub proof fn law_two_steps_to_embed(state: PreparedView, mode: ExecutionMode)
    ensures
        state.done(mode).done(mode).due() == StepKind::Embed,
        state.done(mode).done(mode).loaded == Some(
            match state.loaded {
                Some(first) => first,
                None => mode,
            },
        ),
        state.due() == StepKind::Load || state.due() == StepKind::Embed ==> state.downloaded,
        state.done(mode).due() == state.due() ==> state.due() == StepKind::Embed,
        forall|later: ExecutionMode|
            #![trigger state.done(later)]
            state.due() == StepKind::Embed ==> state.done(later) == state,
{
}

/// Texts to embed, and how many at a time.
pub struct EmbedRequest {
    pub chunks: Vec<String>,
    pub batch_size: usize,
}

/// What to do next for a caller that wants texts embedded.
pub enum EmbedStep {
    Download(Download),
    Load(Load),
    Embed(EmbedRequest),
}

/// A model and how far it is prepared.
pub struct Model {
    pub info: ModelInfo,
    cache: String,
    profiling_output: Option<String>,
    downloaded: bool,
    loaded: Option<ExecutionMode>,
}

impl Model {
    /// What the model is made of.
    pub closed spec fn described(self) -> InfoView {
        self.info@
    }

    /// The directory that the model is cached in.
    pub closed spec fn cache(self) -> Seq<char> {
        self.cache@
    }

    /// Where profiles of the session are written, if they are.
    pub closed spec fn profiling(self) -> Option<Seq<char>> {
        opt_string(self.profiling_output)
    }

    /// How far the model is prepared.
    pub closed spec fn prepared(self) -> PreparedView {
        PreparedView { downloaded: self.downloaded, loaded: self.loaded }
    }

    /// The directory of the model's files.
    pub open spec fn directory(self) -> Seq<char> {
        path_join(self.cache(), snapshot_path(self.described().id, self.described().revision))
    }

    /// A model of which nothing is prepared. The caller hands in absolute paths; an empty path has
    /// no absolute form.
    pub fn new(info: ModelInfo, cache: &str, profiling_output: Option<&str>) -> (model: Self)
        requires
            cache@.len() > 0,
            opt_text(profiling_output) matches Some(path) ==> path.len() > 0,
        ensures
            model.described() == info@,
            model.cache() == cache@,
            model.profiling() == opt_text(profiling_output),
            model.prepared() == (PreparedView { downloaded: false, loaded: None }),
    {
        let profiling_output: Option<String> = match profiling_output {
            Some(path) => Some(path.to_owned()),
            None => None,
        };
        Model { info, cache: cache.to_owned(), profiling_output, downloaded: false, loaded: None }
    }

    /// What the model is made of.
    pub fn info(&self) -> (info: &ModelInfo)
        ensures
            info@ == self.described(),
    {
        &self.info
    }

    /// The directory that the model is cached in.
    pub fn cache_dir(&self) -> (dir: &String)
        ensures
            dir@ == self.cache(),
    {
        &self.cache
    }

    /// The directory of the model's files. It lies below the cache: it is the cache with the folder
    /// of the revision put behind it, and its components begin with those of the cache. Neither is
    /// said of a verbatim path, nor the second of a path that is only a drive.
    pub fn model_dir(&self) -> (dir: String)
        ensures
            dir@ == self.directory(),
            !is_verbatim(self.cache()) ==> is_extended(
                self.cache(),
                snapshot_path(self.described().id, self.described().revision),
                dir@,
            ),
            !is_verbatim(self.cache()) && !is_bare_drive(self.cache()) ==> components(
                self.cache(),
            ).is_prefix_of(components(dir@)),
    {
        proof {
            reveal_strlit("models--");
        }
        let folder = snapshot_folder(self.info.id.as_str(), self.info.revision.as_str());
        let dir = join_path(self.cache.as_str(), folder.as_str());
        proof {
            if !is_verbatim(self.cache()) && !is_bare_drive(self.cache()) {
                law_extended_components(self.cache(), folder@, dir@);
            }
        }
        dir
    }

    /// The fetching of the model, or `None` where it was fetched already.
    pub fn download_model(&self) -> (download: Option<Download>)
        ensures
            match download {
                Some(download) => !self.prepared().downloaded && download@ == download_start(
                    download_of(self.described(), self.cache()),
                ),
                None => self.prepared().downloaded,
            },
    {
        if self.downloaded {
            None
        } else {
            Some(Download::begin(self.download_plan()))
        }
    }

    /// The files of the model in the order in which they are fetched.
    fn download_plan(&self) -> (plan: DownloadPlan)
        ensures
            plan@ == download_of(self.described(), self.cache()),
    {
        let files: Vec<FileRequest> = vec![
            file_request(&self.info.onnx_file, "Failed to download onnx file"),
            file_request(&self.info.config_file, "Failed to download config file"),
            file_request(&self.info.tokenizer_file, "Failed to download tokenizer file"),
            file_request(
                &self.info.special_tokens_map_file,
                "Failed to download special tokens map file",
            ),
            file_request(
                &self.info.tokenizer_config_file,
                "Failed to download tokenizer config file",
            ),
        ];
        let plan = DownloadPlan {
            cache: self.cache.clone(),
            endpoint: "https://hf-mirror.com".to_owned(),
            repo_kind: RepoKind::Model,
            repo_id: self.info.id.clone(),
            revision: self.info.revision.clone(),
            files,
        };
        assert(plan@.files =~= download_of(self.described(), self.cache()).files);
        plan
    }

    /// Whether a fetching is that of this model and complete.
    pub open spec fn is_fetched_by(self, download: Download) -> bool {
        &&& download@.stage == DownloadStageView::Complete
        &&& download@.plan == download_of(self.described(), self.cache())
    }

    /// Notes how the fetching of the model went. One that did not complete changes nothing, nor
    /// does one that fetched something else.
    pub fn finish_download(&mut self, download: Download)
        ensures
            final(self).prepared() == if old(self).is_fetched_by(download) {
                PreparedView { downloaded: true, ..old(self).prepared() }
            } else {
                old(self).prepared()
            },
            forall|mode: ExecutionMode|
                old(self).is_fetched_by(download) && old(self).prepared().due()
                    == StepKind::Download ==> final(self).prepared()
                    == #[trigger] old(self).prepared().done(mode),
            final(self).described() == old(self).described(),
            final(self).cache() == old(self).cache(),
            final(self).profiling() == old(self).profiling(),
    {
        if download.is_complete() && same_download(download.plan(), &self.download_plan()) {
            self.downloaded = true;
        }
    }

    /// The building of the model for a mode, or `None` where it was built already, for whatever
    /// mode.
    pub fn get_model(&self, execution_mode: ExecutionMode) -> (load: Option<Load>)
        ensures
            match load {
                Some(load) => self.prepared().loaded is None && load@ == load_start(
                    load_of(
                        self.described(),
                        self.directory(),
                        execution_mode,
                        self.profiling(),
                    ),
                ),
                None => self.prepared().loaded is Some,
            },
    {
        if self.loaded.is_some() {
            None
        } else {
            Some(Load::begin(self.load_plan(execution_mode)))
        }
    }

    /// How to build the model for a mode.
    fn load_plan(&self, execution_mode: ExecutionMode) -> (plan: LoadPlan)
        ensures
            plan@ == load_of(self.described(), self.directory(), execution_mode, self.profiling()),
    {
        let dir = self.model_dir();
        let profiling_output: Option<String> = match &self.profiling_output {
            Some(path) => Some(path.clone()),
            None => None,
        };
        let plan = LoadPlan {
            onnx_file: join_path(dir.as_str(), self.info.onnx_file.as_str()),
            tokenizer_file: join_path(dir.as_str(), self.info.tokenizer_file.as_str()),
            config_file: join_path(dir.as_str(), self.info.config_file.as_str()),
            special_tokens_map_file: join_path(
                dir.as_str(),
                self.info.special_tokens_map_file.as_str(),
            ),
            tokenizer_config_file: join_path(
                dir.as_str(),
                self.info.tokenizer_config_file.as_str(),
            ),
            execution_mode,
            parallel_execution: false,
            profiling_output,
            pooling: self.info.pooling,
            quantization: QuantizationMode::Static,
        };
        assert(plan@.reads =~= load_of(
            self.described(),
            self.directory(),
            execution_mode,
            self.profiling(),
        ).reads);
        plan
    }

    /// Whether a building is that of this model, for whatever mode, and complete.
    pub open spec fn is_built_by(self, load: Load) -> bool {
        &&& load@.stage == LoadStageView::Ended { end: LoadEnd::Complete }
        &&& load@.plan == load_of(
            self.described(),
            self.directory(),
            load@.plan.execution_mode,
            self.profiling(),
        )
    }

    /// Notes how the building of the model went. One that did not complete changes nothing, nor
    /// does one that built something else, and a model that was built before keeps its mode.
    pub fn finish_load(&mut self, load: Load)
        ensures
            final(self).prepared() == if old(self).prepared().loaded is None
                && old(self).is_built_by(load) {
                PreparedView {
                    loaded: Some(load@.plan.execution_mode),
                    ..old(self).prepared()
                }
            } else {
                old(self).prepared()
            },
            old(self).is_built_by(load) && old(self).prepared().due() == StepKind::Load
                ==> final(self).prepared() == old(self).prepared().done(load@.plan.execution_mode),
            final(self).described() == old(self).described(),
            final(self).cache() == old(self).cache(),
            final(self).profiling() == old(self).profiling(),
    {
        let mode = load.plan().execution_mode;
        if load.is_complete() && self.loaded.is_none() && same_load(
            load.plan(),
            &self.load_plan(mode),
        ) {
            self.loaded = Some(mode);
        }
    }

    /// What to do next so that texts are embedded: fetch the model, build it, or hand the texts
    /// over in batches.
    pub fn embed_chunks(&self, chunks: &Vec<String>, execution_mode: ExecutionMode) -> (step:
        EmbedStep)
        ensures
            match step {
                EmbedStep::Download(download) => self.prepared().due() == StepKind::Download
                    && download@ == download_start(download_of(self.described(), self.cache())),
                EmbedStep::Load(load) => self.prepared().due() == StepKind::Load && load@
                    == load_start(
                    load_of(
                        self.described(),
                        self.directory(),
                        execution_mode,
                        self.profiling(),
                    ),
                ),
                EmbedStep::Embed(request) => self.prepared().due() == StepKind::Embed && texts(
                    request.chunks@,
                ) == texts(chunks@) && request.batch_size == BATCH_SIZE,
            },
    {
        match self.download_model() {
            Some(download) => EmbedStep::Download(download),
            None => match self.get_model(execution_mode) {
                Some(load) => EmbedStep::Load(load),
                None => EmbedStep::Embed(
                    EmbedRequest { chunks: copy_texts(chunks), batch_size: BATCH_SIZE },
                ),
            },
        }
    }
}

/// Models that agree in cache, repository and revision share their directory, whatever else they
/// are made of and wherever their profiles go.
pub proof fn law_directory_is_shared(a: Model, b: Model)
    requires
        a.cache() == b.cache(),
        a.described().id == b.described().id,
        a.described().revision == b.described().revision,
    ensures
        a.directory() == b.directory(),
{
}

/// The fetching of a model is noted exactly where it fetched this model into this cache and got
/// every file.
pub proof fn law_fetch_is_noted_where_complete(
    model: Model,
    download: Download,
    available: Set<Seq<char>>,
)
    requires
        download@ == download_start(download_of(model.described(), model.cache())).driven(
            available,
        ),
    ensures
        model.is_fetched_by(download) <==> {
            &&& available.contains(model.described().onnx_file)
            &&& available.contains(model.described().config_file)
            &&& available.contains(model.described().tokenizer_file)
            &&& available.contains(model.described().special_tokens_map_file)
            &&& available.contains(model.described().tokenizer_config_file)
        },
{
    let info = model.described();
    let plan = download_of(info, model.cache());
    law_every_file_is_fetched(info, model.cache());
    law_download_in_order(plan, available);
    law_download_completes(plan, available);
    if model.is_fetched_by(download) {
        assert(available.contains(plan.files[0].path) && available.contains(plan.files[1].path));
        assert(available.contains(plan.files[2].path) && available.contains(plan.files[3].path));
        assert(available.contains(plan.files[4].path));
    }
}

/// A fetching or a building of something else, or one that did not end well, is not noted.
pub proof fn law_only_its_own_work_is_noted(model: Model, download: Download, load: Load)
    ensures
        model.is_fetched_by(download) ==> {
            &&& download@.stage == DownloadStageView::Complete
            &&& download@.plan.endpoint == "https://hf-mirror.com"@
            &&& download@.plan.repo_kind == RepoKind::Model
            &&& download@.plan.cache == model.cache()
            &&& download@.plan.repo_id == model.described().id
            &&& download@.plan.revision == model.described().revision
            &&& download@.plan.files.len() == 5
            &&& download@.plan.files[0].path == model.described().onnx_file
            &&& download@.plan.files[1].path == model.described().config_file
            &&& download@.plan.files[2].path == model.described().tokenizer_file
            &&& download@.plan.files[3].path == model.described().special_tokens_map_file
            &&& download@.plan.files[4].path == model.described().tokenizer_config_file
        },
        model.is_built_by(load) ==> {
            &&& load@.stage == LoadStageView::Ended { end: LoadEnd::Complete }
            &&& load@.plan.profiling_output == model.profiling()
            &&& load@.plan.pooling == model.described().pooling
            &&& load@.plan.quantization == QuantizationMode::Static
            &&& !load@.plan.parallel_execution
            &&& read_paths(load@.plan.reads) == seq![
                path_join(model.directory(), model.described().onnx_file),
                path_join(model.directory(), model.described().tokenizer_file),
                path_join(model.directory(), model.described().config_file),
                path_join(model.directory(), model.described().special_tokens_map_file),
                path_join(model.directory(), model.described().tokenizer_config_file),
            ]
        },
{
    if model.is_built_by(load) {
        let info = model.described();
        law_model_is_built_as_asked(
            info,
            model.directory(),
            load@.plan.execution_mode,
            model.profiling(),
        );
        assert(read_paths(load@.plan.reads) =~= seq![
            path_join(model.directory(), info.onnx_file),
            path_join(model.directory(), info.tokenizer_file),
            path_join(model.directory(), info.config_file),
            path_join(model.directory(), info.special_tokens_map_file),
            path_join(model.directory(), info.tokenizer_config_file),
        ]);
    }
}

/// The building of a model for a mode, where its files can be read, the providers are there and a
/// session can be made, is noted, and it is noted for that very mode.
pub proof fn law_build_is_noted_for_its_mode(
    model: Model,
    load: Load,
    mode: ExecutionMode,
    site: LoadSite,
)
    requires
        load@ == load_start(
            load_of(model.described(), model.directory(), mode, model.profiling()),
        ).driven(site),
        site.readable.contains(path_join(model.directory(), model.described().onnx_file)),
        site.readable.contains(path_join(model.directory(), model.described().tokenizer_file)),
        site.readable.contains(path_join(model.directory(), model.described().config_file)),
        site.readable.contains(
            path_join(model.directory(), model.described().special_tokens_map_file),
        ),
        site.readable.contains(
            path_join(model.directory(), model.described().tokenizer_config_file),
        ),
    ensures
        load@.plan.execution_mode == mode,
        model.is_built_by(load) <==> site.providers && site.builds,
{
    let (info, dir) = (model.described(), model.directory());
    let plan = load_of(info, dir, mode, model.profiling());
    law_model_is_built_as_asked(info, dir, mode, model.profiling());
    assert forall|i: int| 0 <= i < plan.reads.len() implies site.readable.contains(
        (#[trigger] plan.reads[i]).path,
    ) by {
        assert(i == 0 || i == 1 || i == 2 || i == 3 || i == 4);
    }
    law_readable_files_lead_to_session(plan, site);
}

/// A model's files are kept below its cache, in the folder of its repository and revision.
pub proof fn law_directory_of_model(model: Model)
    ensures
        model.directory() == path_join(
            model.cache(),
            "models--"@ + joined(pieces(model.described().id, seq!['/']), "--"@) + "/snapshots/"@
                + model.described().revision,
        ),
{
    let info = model.described();
    law_snapshot_path(info.id, info.id, info.id, info.revision);
}

/// While a model is fetched every request goes to the mirror, for the model's repository at its
/// revision, and into its cache, however far the fetching came.
pub proof fn law_fetches_from_the_mirror(model: Model, available: Set<Seq<char>>)
    ensures
        ({
            let plan = download_start(download_of(model.described(), model.cache())).driven(
                available,
            ).plan;
            &&& plan.endpoint == "https://hf-mirror.com"@
            &&& plan.repo_kind == RepoKind::Model
            &&& plan.repo_id == model.described().id
            &&& plan.revision == model.described().revision
            &&& plan.cache == model.cache()
        }),
{
    law_download_in_order(download_of(model.described(), model.cache()), available);
}

/// Every kind of the model is kept in one directory of a cache.
pub proof fn law_kinds_share_directory(a: Model, b: Model, of_a: ModelKind, of_b: ModelKind)
    requires
        a.cache() == b.cache(),
        a.described() == embedding_model(of_a),
        b.described() == embedding_model(of_b),
    ensures
        a.directory() == b.directory(),
{
}

fn copy_texts(chunks: &Vec<String>) -> (copy: Vec<String>)
    ensures
        texts(copy@) == texts(chunks@),
{
    let copy: Vec<String> = chunks.clone();
    assert(texts(copy@) =~= texts(chunks@));
    copy
}

} // verus!
