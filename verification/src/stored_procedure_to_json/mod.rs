pub mod comments;
pub mod json_data_construction;
pub mod package_name;
pub mod stored_proc;
pub mod stored_proc_variable;
pub mod variable_direction;

use vstd::prelude::*;

use crate::bindings::{all_ascii, is_key_char, regex_is_match, to_uppercase, uppercase_of};
use crate::text::{char_to_string, chars_of, string_of, utf8_byte_len, utf8_char_len, utf8_len};
use self::comments::{
    comment_type_one_liner, comment_type_one_liner_post, comment_type_section, comment_type_section_post, is_comment,
    is_comment_post,
};
use self::json_data_construction::{construct_json_data, procedures_json_text};
use self::package_name::{is_white_space, package_name_stage, package_name_stage_post};
use self::stored_proc::{
    no_stored_procedure_stage, no_stored_procedure_stage_post, open_bracket_stage, open_bracket_stage_post,
    stored_procedure_key_word_stage, stored_procedure_key_word_stage_post, stored_procedure_name_stage,
    stored_procedure_name_stage_post,
};
use self::stored_proc_variable::{
    db_type_separator_stage, db_type_separator_stage_post, default_keyword_value_stage, default_keyword_value_stage_post,
    default_keywrd_stage, default_keywrd_stage_post, variable_separator_direction, variable_separator_direction_post,
    variable_separator_name, variable_separator_name_post, variable_separator_new_var, variable_separator_new_var_post,
    variable_stage_param_ref_cursor, variable_stage_param_ref_cursor_post, variable_stage_param_type_in,
    variable_stage_param_type_in_post, variable_stage_variable_name, variable_stage_variable_name_post,
};
use self::variable_direction::{
    variable_stage_param_direction_in_out, variable_stage_param_direction_in_out_post,
    variable_stage_param_direction_init, variable_stage_param_direction_init_post,
    variable_stage_param_direction_req_empty_space, variable_stage_param_direction_req_empty_space_post,
};

verus! {

/// The name of a stored procedure.
pub struct StoredProcedureInfo {
    pub procedure_name: String,
}

/// Whether a parameter is passed in, out, or both.
#[derive(Clone, Copy, PartialEq, Eq, Structural)]
pub enum ParameterDirection {
    Input,
    Output,
    InputOutput,
}

/// The database types a parameter can have.
#[derive(Clone, Copy, PartialEq, Eq, Structural)]
pub enum OracleDbType {
    Varchar2,
    RefCursor,
}

/// One parameter of a stored procedure.
pub struct StoredProcedureParameter {
    pub param_name: String,
    pub param_value: String,
    pub param_direction: ParameterDirection,
    pub param_type: OracleDbType,
    pub position: usize,
}

/// The abstract value of a [`StoredProcedureParameter`].
pub struct ParamView {
    pub param_name: Seq<char>,
    pub param_value: Seq<char>,
    pub param_direction: ParameterDirection,
    pub param_type: OracleDbType,
    pub position: usize,
}

impl View for StoredProcedureParameter {
    type V = ParamView;

    open spec fn view(&self) -> ParamView {
        ParamView {
            param_name: self.param_name@,
            param_value: self.param_value@,
            param_direction: self.param_direction,
            param_type: self.param_type,
            position: self.position,
        }
    }
}

impl StoredProcedureParameter {
    /// A parameter without name or value, passed in, of type `VARCHAR2`, at position 0.
    pub fn new() -> (r: StoredProcedureParameter)
        ensures
            r@ == (ParamView {
                param_name: Seq::empty(),
                param_value: Seq::empty(),
                param_direction: ParameterDirection::Input,
                param_type: OracleDbType::Varchar2,
                position: 0,
            }),
    {
        StoredProcedureParameter {
            param_name: String::new(),
            param_value: String::new(),
            param_direction: ParameterDirection::Input,
            param_type: OracleDbType::Varchar2,
            position: 0,
        }
    }
}

/// A stored procedure: its name and its parameters.
pub struct StoredProcedure {
    pub info: StoredProcedureInfo,
    pub params: Vec<StoredProcedureParameter>,
}

/// The abstract value of a [`StoredProcedure`].
pub struct StoredProcedureView {
    pub procedure_name: Seq<char>,
    pub params: Seq<ParamView>,
}

/// The views of a list of parameters.
pub open spec fn params_view(v: Seq<StoredProcedureParameter>) -> Seq<ParamView> {
    v.map_values(|p: StoredProcedureParameter| p@)
}

impl View for StoredProcedure {
    type V = StoredProcedureView;

    open spec fn view(&self) -> StoredProcedureView {
        StoredProcedureView { procedure_name: self.info.procedure_name@, params: params_view(self.params@) }
    }
}

/// The views of a list of stored procedures.
pub open spec fn procedures_view(v: Seq<StoredProcedure>) -> Seq<StoredProcedureView> {
    v.map_values(|p: StoredProcedure| p@)
}

impl StoredProcedure {
    /// A stored procedure without name or parameters.
    pub fn new() -> (r: StoredProcedure)
        ensures
            r@ == (StoredProcedureView { procedure_name: Seq::empty(), params: Seq::empty() }),
    {
        let r = StoredProcedure { info: StoredProcedureInfo { procedure_name: String::new() }, params: Vec::new() };
        proof {
            assert(r@.params =~= Seq::<ParamView>::empty());
        }
        r
    }
}

/// How a parameter's type is recognised: as one of the plain type words, or by its ending.
#[derive(Clone, Copy, PartialEq, Eq, Structural)]
pub enum ParamSearchType {
    Word,
    EndsWith,
}

/// A parameter's type being read: how it is recognised and the text so far.
pub struct ParamTypeInfo {
    pub search_type: ParamSearchType,
    pub str_val: String,
}

/// Where the reader stands in a parameter's direction: at its start, inside `INOUT`, or
/// after `INOUT`, where a blank must follow.
#[derive(Clone, Copy, PartialEq, Eq, Structural)]
pub enum InOutDirectionStage {
    Init,
    InOut,
    ReqEmptySpace,
}

/// A parameter's direction being read: the text so far and the stage.
pub struct InOutDirectionStageInfo {
    pub str_val: String,
    pub stage: InOutDirectionStage,
}

/// Where the reader stands in a parameter.
pub enum ProcVariableStages {
    VariableName(String),
    VariableDirection(InOutDirectionStageInfo),
    VariableType(ParamTypeInfo),
    DefaultKeyWord,
    DefaultValueKeyWord(String),
}

/// Where the reader stands between the parts of a parameter.
#[derive(Clone, Copy, PartialEq, Eq, Structural)]
pub enum VariableSeparationStage {
    NameSeparator,
    InOutSeparator,
    DbTypeSeparator,
    NewVariable,
}

/// The two kinds of comment: up to the end of the line, or up to `*/`.
#[derive(Clone, Copy, PartialEq, Eq, Structural)]
pub enum CommentType {
    Section,
    OneLiner,
}

/// A comment being skipped, and the stage to go back to after it.
pub struct CommentInfo {
    pub comment_type: CommentType,
    pub previous_stage: Box<ProcDecalarationStage>,
}

/// Where the reader stands in a procedure declaration.
pub enum ProcDecalarationStage {
    NoStoredProcedure,
    ProcedureKeyWord,
    ProcedureName(String),
    OpenBracket,
    Variable(ProcVariableStages),
    VariableSeparator(VariableSeparationStage),
    PackageName(String),
    CommentSection(CommentInfo),
}

/// The state of reading stored procedure declarations.
pub struct State {
    pub meta_data_json_arr: String,
    pub request_json_arr: String,
    pub stored_procedures: Vec<StoredProcedure>,
    pub curr_stage: ProcDecalarationStage,
    pub content: Vec<char>,
    pub package_name: String,
}

/// The abstract value of a [`State`].
pub struct StateView {
    pub meta_data_json_arr: Seq<char>,
    pub request_json_arr: Seq<char>,
    pub stored_procedures: Seq<StoredProcedureView>,
    pub curr_stage: ProcDecalarationStage,
    pub content: Seq<char>,
    pub package_name: Seq<char>,
}

impl View for State {
    type V = StateView;

    open spec fn view(&self) -> StateView {
        StateView {
            meta_data_json_arr: self.meta_data_json_arr@,
            request_json_arr: self.request_json_arr@,
            stored_procedures: procedures_view(self.stored_procedures@),
            curr_stage: self.curr_stage,
            content: self.content@,
            package_name: self.package_name@,
        }
    }
}

impl StateView {
    /// The state at stage `st`.
    pub open spec fn staged(self, st: ProcDecalarationStage) -> StateView {
        StateView { curr_stage: st, ..self }
    }

    /// `t` is this state moved to a stage that `ok` accepts.
    pub open spec fn restaged(self, t: StateView, ok: spec_fn(ProcDecalarationStage) -> bool) -> bool {
        ok(t.curr_stage) && t == self.staged(t.curr_stage)
    }

    /// The last procedure's parameters with `f` applied to the parameter at position
    /// `last` (the position of the last procedure, as the declaration reader uses it).
    pub open spec fn with_first_param(self, f: spec_fn(ParamView) -> ParamView) -> StateView {
        let i = self.stored_procedures.len() - 1;
        let p = self.stored_procedures[i];
        StateView {
            stored_procedures: self.stored_procedures.update(
                i,
                StoredProcedureView { params: p.params.update(i, f(p.params[i])), ..p },
            ),
            ..self
        }
    }
}

/// `s` can take a parameter's direction or type: there is a procedure, and its parameter at
/// the procedure's own position exists.
pub open spec fn param_slot_exists(s: StateView) -> bool {
    s.stored_procedures.len() >= 1 && s.stored_procedures.last().params.len() > s.stored_procedures.len() - 1
}

/// What a stage needs of the procedures read so far: a procedure once its parameters are
/// read, and the parameter slot that directions and types are written to once a
/// parameter's name is read.
pub open spec fn stage_ready(st: ProcDecalarationStage, s: StateView) -> bool
    decreases st,
{
    match st {
        ProcDecalarationStage::OpenBracket => s.stored_procedures.len() >= 1,
        ProcDecalarationStage::Variable(v) => match v {
            ProcVariableStages::VariableName(_) => s.stored_procedures.len() >= 1,
            _ => param_slot_exists(s),
        },
        ProcDecalarationStage::VariableSeparator(v) => match v {
            VariableSeparationStage::NewVariable => s.stored_procedures.len() >= 1,
            _ => param_slot_exists(s),
        },
        ProcDecalarationStage::CommentSection(info) => stage_ready(*info.previous_stage, s),
        _ => true,
    }
}

/// Whether a stage has what it needs depends on the procedures alone.
pub proof fn lemma_stage_ready_procs(st: ProcDecalarationStage, s: StateView, t: StateView)
    requires
        s.stored_procedures == t.stored_procedures,
    ensures
        stage_ready(st, s) == stage_ready(st, t),
    decreases st,
{
    if let ProcDecalarationStage::CommentSection(info) = st {
        lemma_stage_ready_procs(*info.previous_stage, s, t);
    }
}

/// The reader's invariant: at most one procedure is recorded, and the stage has what it needs.
pub open spec fn reader_ok(s: StateView) -> bool {
    s.stored_procedures.len() <= 1 && stage_ready(s.curr_stage, s)
}

/// The blanks of a declaration: space, new line, tab and carriage return.
pub open spec fn is_blank(c: char) -> bool {
    c == ' ' || c == '\n' || c == '\t' || c == '\r'
}

/// The upper-case text of `s` (`str::to_uppercase`).
pub open spec fn upper(s: Seq<char>) -> Seq<char> {
    uppercase_of(s)
}

/// Whether `c` may start a name: it lies in `A`..=`z` (the pattern `^[aA-zZ]`).
pub fn allowed_start(c: char) -> (r: bool)
    ensures
        r == is_key_char(c),
{
    let t = char_to_string(c);
    proof {
        reveal_strlit("^[aA-zZ]");
    }
    match regex_is_match("^[aA-zZ]", t.as_str()) {
        Some(b) => b,
        None => false,
    }
}

/// The upper-case text of `s`.
pub fn upper_text(s: &str) -> (r: String)
    ensures
        r@ == upper(s@),
{
    to_uppercase(s)
}

/// A copy of the stage `st`.
pub fn copy_stage(st: &ProcDecalarationStage) -> (r: ProcDecalarationStage)
    ensures
        r == *st,
    decreases st,
{
    match st {
        ProcDecalarationStage::NoStoredProcedure => ProcDecalarationStage::NoStoredProcedure,
        ProcDecalarationStage::ProcedureKeyWord => ProcDecalarationStage::ProcedureKeyWord,
        ProcDecalarationStage::ProcedureName(n) => ProcDecalarationStage::ProcedureName(n.clone()),
        ProcDecalarationStage::OpenBracket => ProcDecalarationStage::OpenBracket,
        ProcDecalarationStage::Variable(v) => ProcDecalarationStage::Variable(
            match v {
                ProcVariableStages::VariableName(n) => ProcVariableStages::VariableName(n.clone()),
                ProcVariableStages::VariableDirection(d) => ProcVariableStages::VariableDirection(
                    InOutDirectionStageInfo { str_val: d.str_val.clone(), stage: d.stage },
                ),
                ProcVariableStages::VariableType(t) => ProcVariableStages::VariableType(
                    ParamTypeInfo { search_type: t.search_type, str_val: t.str_val.clone() },
                ),
                ProcVariableStages::DefaultKeyWord => ProcVariableStages::DefaultKeyWord,
                ProcVariableStages::DefaultValueKeyWord(n) => ProcVariableStages::DefaultValueKeyWord(n.clone()),
            },
        ),
        ProcDecalarationStage::VariableSeparator(v) => ProcDecalarationStage::VariableSeparator(*v),
        ProcDecalarationStage::PackageName(n) => ProcDecalarationStage::PackageName(n.clone()),
        ProcDecalarationStage::CommentSection(info) => {
            let prev = copy_stage(&info.previous_stage);
            ProcDecalarationStage::CommentSection(
                CommentInfo { comment_type: info.comment_type, previous_stage: Box::new(prev) },
            )
        },
    }
}

impl State {
    /// The state before the first character of `content`.
    pub fn new() -> (r: State)
        ensures
            r@ == (StateView {
                meta_data_json_arr: Seq::empty(),
                request_json_arr: Seq::empty(),
                stored_procedures: Seq::empty(),
                curr_stage: ProcDecalarationStage::NoStoredProcedure,
                content: Seq::empty(),
                package_name: Seq::empty(),
            }),
    {
        let r = State {
            meta_data_json_arr: String::new(),
            request_json_arr: String::new(),
            stored_procedures: Vec::new(),
            content: Vec::new(),
            curr_stage: ProcDecalarationStage::NoStoredProcedure,
            package_name: String::new(),
        };
        proof {
            assert(r@.stored_procedures =~= Seq::<StoredProcedureView>::empty());
        }
        r
    }

    /// Moves to stage `stage`.
    pub fn update_stage(&mut self, stage: ProcDecalarationStage)
        ensures
            final(self)@ == old(self)@.staged(stage),
    {
        self.curr_stage = stage;
    }

    /// Records the procedure named `str_val`, unless one is recorded already.
    pub fn add_procedure_name(&mut self, str_val: &String)
        ensures
            old(self)@.stored_procedures.len() == 0 ==> final(self)@ == (StateView {
                stored_procedures: seq![StoredProcedureView { procedure_name: str_val@, params: Seq::empty() }],
                ..old(self)@
            }),
            old(self)@.stored_procedures.len() != 0 ==> final(self)@ == old(self)@,
    {
        if self.stored_procedures.len() == 0 {
            let mut stored_proc = StoredProcedure::new();
            stored_proc.info.procedure_name = str_val.clone();
            self.stored_procedures.push(stored_proc);
            proof {
                assert(self@.stored_procedures =~= seq![StoredProcedureView { procedure_name: str_val@, params: Seq::empty() }]);
            }
        }
    }

    /// Adds a parameter named `str_val` to the last procedure.
    pub fn update_param_name(&mut self, str_val: &String)
        requires
            old(self)@.stored_procedures.len() >= 1,
        ensures
            final(self)@ == ({
                let s = old(self)@;
                let i = s.stored_procedures.len() - 1;
                let p = s.stored_procedures[i];
                StateView {
                    stored_procedures: s.stored_procedures.update(
                        i,
                        StoredProcedureView {
                            params: p.params.push(
                                ParamView {
                                    param_name: str_val@,
                                    param_value: Seq::empty(),
                                    param_direction: ParameterDirection::Input,
                                    param_type: OracleDbType::Varchar2,
                                    position: 0,
                                },
                            ),
                            ..p
                        },
                    ),
                    ..s
                }
            }),
    {
        let last_proc_index = self.stored_procedures.len() - 1;
        let mut new_param = StoredProcedureParameter::new();
        new_param.param_name = str_val.clone();
        let ghost pv = new_param@;
        self.stored_procedures[last_proc_index].params.push(new_param);
        proof {
            let s = old(self)@;
            let i = last_proc_index as int;
            assert(self@.stored_procedures[i].params =~= s.stored_procedures[i].params.push(pv));
            assert(self@.stored_procedures =~= s.stored_procedures.update(
                i,
                StoredProcedureView { params: s.stored_procedures[i].params.push(pv), ..s.stored_procedures[i] },
            ));
        }
    }

    /// Sets the direction of the last procedure's parameter at the procedure's position.
    pub fn update_param_direction(&mut self, param_dircn: ParameterDirection)
        requires
            param_slot_exists(old(self)@),
        ensures
            final(self)@ == old(self)@.with_first_param(|p: ParamView| ParamView { param_direction: param_dircn, ..p }),
    {
        let last_proc_index = self.stored_procedures.len() - 1;
        self.stored_procedures[last_proc_index].params[last_proc_index].param_direction = param_dircn;
        proof {
            let s = old(self)@;
            let i = last_proc_index as int;
            assert(self@.stored_procedures[i].params =~= s.stored_procedures[i].params.update(
                i,
                ParamView { param_direction: param_dircn, ..s.stored_procedures[i].params[i] },
            ));
            assert(self@.stored_procedures =~= s.with_first_param(
                |p: ParamView| ParamView { param_direction: param_dircn, ..p },
            ).stored_procedures);
        }
    }

    /// Sets the type of the last procedure's parameter at the procedure's position.
    pub fn update_param_type(&mut self, param_type: OracleDbType)
        requires
            param_slot_exists(old(self)@),
        ensures
            final(self)@ == old(self)@.with_first_param(|p: ParamView| ParamView { param_type: param_type, ..p }),
    {
        let last_proc_index = self.stored_procedures.len() - 1;
        self.stored_procedures[last_proc_index].params[last_proc_index].param_type = param_type;
        proof {
            let s = old(self)@;
            let i = last_proc_index as int;
            assert(self@.stored_procedures[i].params =~= s.stored_procedures[i].params.update(
                i,
                ParamView { param_type: param_type, ..s.stored_procedures[i].params[i] },
            ));
            assert(self@.stored_procedures =~= s.with_first_param(
                |p: ParamView| ParamView { param_type: param_type, ..p },
            ).stored_procedures);
        }
    }

    /// Gives up the parameter being read: back to looking for a procedure.
    pub fn abort_param(&mut self)
        ensures
            final(self)@ == old(self)@.staged(ProcDecalarationStage::NoStoredProcedure),
    {
        self.curr_stage = ProcDecalarationStage::NoStoredProcedure;
    }

    /// Records the package name `name`.
    pub fn update_package_name(&mut self, name: &String)
        ensures
            final(self)@ == (StateView { package_name: name@, ..old(self)@ }),
    {
        self.package_name = name.clone();
    }
}

/// What the reader does at position `i` in a parameter stage `v`, ending on position `k`.
pub open spec fn variable_step(s: StateView, i: int, v: ProcVariableStages, t: StateView, k: int) -> bool {
    let c = s.content[i];
    match v {
        ProcVariableStages::VariableName(n) => k == i && variable_stage_variable_name_post(s, c, n@, t),
        ProcVariableStages::VariableDirection(info) => k == i && match info.stage {
            InOutDirectionStage::Init => variable_stage_param_direction_init_post(s, c, info.str_val@, t),
            InOutDirectionStage::InOut => variable_stage_param_direction_in_out_post(s, c, info.str_val@, t),
            InOutDirectionStage::ReqEmptySpace => variable_stage_param_direction_req_empty_space_post(
                s,
                c,
                info.str_val@,
                t,
            ),
        },
        ProcVariableStages::VariableType(info) => match info.search_type {
            ParamSearchType::Word => variable_stage_param_type_in_post(s, i, info.str_val@, t, k),
            ParamSearchType::EndsWith => k == i && variable_stage_param_ref_cursor_post(s, c, info.str_val@, t),
        },
        ProcVariableStages::DefaultKeyWord => default_keywrd_stage_post(s, i, t, k),
        ProcVariableStages::DefaultValueKeyWord(n) => k == i && default_keyword_value_stage_post(s, c, n@, t),
    }
}

/// What the reader does at position `i` between the parts of a parameter (stage `v`).
pub open spec fn separator_step(s: StateView, c: char, v: VariableSeparationStage, t: StateView) -> bool {
    match v {
        VariableSeparationStage::NameSeparator => variable_separator_name_post(s, c, t),
        VariableSeparationStage::InOutSeparator => variable_separator_direction_post(s, c, t),
        VariableSeparationStage::DbTypeSeparator => db_type_separator_stage_post(s, c, t),
        VariableSeparationStage::NewVariable => variable_separator_new_var_post(s, c, t),
    }
}

/// What the reader does at position `i` by its stage, ending on position `k`.
pub open spec fn stage_step(s: StateView, i: int, t: StateView, k: int) -> bool {
    let c = s.content[i];
    match s.curr_stage {
        ProcDecalarationStage::NoStoredProcedure => no_stored_procedure_stage_post(s, i, t, k),
        ProcDecalarationStage::ProcedureKeyWord => k == i && stored_procedure_key_word_stage_post(s, c, t),
        ProcDecalarationStage::ProcedureName(n) => k == i && stored_procedure_name_stage_post(s, c, n@, t),
        ProcDecalarationStage::OpenBracket => k == i && open_bracket_stage_post(s, c, t),
        ProcDecalarationStage::Variable(v) => variable_step(s, i, v, t, k),
        ProcDecalarationStage::VariableSeparator(v) => k == i && separator_step(s, c, v, t),
        ProcDecalarationStage::PackageName(n) => k == i && package_name_stage_post(s, c, n@, t),
        ProcDecalarationStage::CommentSection(info) => match info.comment_type {
            CommentType::OneLiner => k == i && comment_type_one_liner_post(s, c, *info.previous_stage, t),
            CommentType::Section => comment_type_section_post(s, i, *info.previous_stage, t, k),
        },
    }
}

/// A comment starts at position `i` of `s`.
pub open spec fn comment_starts(s: StateView, i: int) -> bool {
    !(s.curr_stage is CommentSection) && i + 1 <= s.content.len() - 1 && (s.content.subrange(i, i + 2) == "/*"@
        || s.content.subrange(i, i + 2) == "--"@)
}

/// What a blank does at position `i`: it ends a parameter's name, the package name, or the
/// direction `INOUT`; a new line ends a one-line comment; elsewhere it is skipped.
pub open spec fn blank_step(s: StateView, i: int, t: StateView) -> bool {
    match s.curr_stage {
        ProcDecalarationStage::Variable(ProcVariableStages::VariableName(n)) => variable_stage_variable_name_post(
            s,
            s.content[i],
            n@,
            t,
        ),
        ProcDecalarationStage::Variable(ProcVariableStages::VariableDirection(info)) => match info.stage {
            InOutDirectionStage::ReqEmptySpace => variable_stage_param_direction_req_empty_space_post(
                s,
                s.content[i],
                info.str_val@,
                t,
            ),
            _ => t == s,
        },
        ProcDecalarationStage::PackageName(n) => package_name_stage_post(s, s.content[i], n@, t),
        ProcDecalarationStage::CommentSection(info) => match info.comment_type {
            CommentType::OneLiner => comment_type_one_liner_post(s, s.content[i], *info.previous_stage, t),
            CommentType::Section => t == s,
        },
        _ => t == s,
    }
}

/// One step of the reader from position `i` in state `s` to position `j` in state `t`: a
/// comment start, a blank, or the stage's own step, then on to the next position.
pub open spec fn reader_step(s: StateView, i: int, t: StateView, j: int) -> bool {
    if comment_starts(s, i) {
        is_comment_post(s, i, true, t, j - 1)
    } else if is_blank(s.content[i]) {
        j == i + 1 && blank_step(s, i, t)
    } else {
        stage_step(s, i, t, j - 1)
    }
}

fn should_not_ignore_white_space(index: &mut usize, state: &mut State) -> (r: bool)
    requires
        *old(index) < old(state)@.content.len(),
        reader_ok(old(state)@),
    ensures
        r == is_blank(old(state)@.content[*old(index) as int]),
        r ==> blank_step(old(state)@, *old(index) as int, final(state)@),
        !r ==> final(state)@ == old(state)@,
        *final(index) == *old(index),
        reader_ok(final(state)@),
{
    if !is_white_space(*index, state) {
        return false;
    }
    let stage = copy_stage(&state.curr_stage);
    match stage {
        ProcDecalarationStage::Variable(ProcVariableStages::VariableName(curr_proc_name)) => {
            variable_stage_variable_name(state, index, &curr_proc_name);
        },
        ProcDecalarationStage::Variable(ProcVariableStages::VariableDirection(info)) => {
            if let InOutDirectionStage::ReqEmptySpace = info.stage {
                variable_stage_param_direction_req_empty_space(state, index, &info.str_val);
            }
        },
        ProcDecalarationStage::PackageName(curr_str_val) => {
            package_name_stage(state, index, &curr_str_val);
        },
        ProcDecalarationStage::CommentSection(info) => {
            if let CommentType::OneLiner = info.comment_type {
                comment_type_one_liner(state, index, &info.previous_stage);
            }
        },
        _ => {},
    }
    true
}

fn param_type_decision(index: &mut usize, state: &mut State, param_type_info: ParamTypeInfo)
    requires
        *old(index) < old(state)@.content.len(),
        reader_ok(old(state)@),
        param_slot_exists(old(state)@),
    ensures
        variable_step(old(state)@, *old(index) as int, ProcVariableStages::VariableType(param_type_info), final(state)@, *final(index) as int),
        *old(index) <= *final(index) < old(state)@.content.len(),
        reader_ok(final(state)@),
{
    match param_type_info.search_type {
        ParamSearchType::Word => variable_stage_param_type_in(state, index, &param_type_info.str_val),
        ParamSearchType::EndsWith => variable_stage_param_ref_cursor(state, index, &param_type_info.str_val),
    }
}

fn variable_stages(index: &mut usize, state: &mut State, variable_stage: &ProcVariableStages)
    requires
        *old(index) < old(state)@.content.len(),
        reader_ok(old(state)@),
        old(state)@.curr_stage == ProcDecalarationStage::Variable(*variable_stage),
        *old(index) >= 1,
    ensures
        variable_step(old(state)@, *old(index) as int, *variable_stage, final(state)@, *final(index) as int),
        *old(index) <= *final(index) < old(state)@.content.len(),
        reader_ok(final(state)@),
{
    match variable_stage {
        ProcVariableStages::VariableName(str_val) => variable_stage_variable_name(state, index, str_val),
        ProcVariableStages::VariableDirection(info) => match info.stage {
            InOutDirectionStage::Init => variable_stage_param_direction_init(state, index, &info.str_val),
            InOutDirectionStage::InOut => variable_stage_param_direction_in_out(state, index, &info.str_val),
            InOutDirectionStage::ReqEmptySpace => {
                variable_stage_param_direction_req_empty_space(state, index, &info.str_val)
            },
        },
        ProcVariableStages::VariableType(param_type_info) => {
            let info = ParamTypeInfo { search_type: param_type_info.search_type, str_val: param_type_info.str_val.clone() };
            param_type_decision(index, state, info)
        },
        ProcVariableStages::DefaultKeyWord => default_keywrd_stage(state, index),
        ProcVariableStages::DefaultValueKeyWord(str_val) => default_keyword_value_stage(state, index, str_val),
    }
}

fn variable_separation_stages_decision(index: &mut usize, state: &mut State, var_sep_stages: VariableSeparationStage)
    requires
        *old(index) < old(state)@.content.len(),
        reader_ok(old(state)@),
        old(state)@.curr_stage == ProcDecalarationStage::VariableSeparator(var_sep_stages),
    ensures
        separator_step(old(state)@, old(state)@.content[*old(index) as int], var_sep_stages, final(state)@),
        *final(index) == *old(index),
        reader_ok(final(state)@),
{
    match var_sep_stages {
        VariableSeparationStage::NameSeparator => variable_separator_name(state, index),
        VariableSeparationStage::InOutSeparator => variable_separator_direction(state, index),
        VariableSeparationStage::DbTypeSeparator => db_type_separator_stage(state, index),
        VariableSeparationStage::NewVariable => variable_separator_new_var(state, index),
    }
}

fn to_json(index: &mut usize, state: &mut State)
    requires
        *old(index) < old(state)@.content.len(),
        reader_ok(old(state)@),
        *old(index) == 0 ==> old(state)@.curr_stage == ProcDecalarationStage::NoStoredProcedure,
    ensures
        reader_step(old(state)@, *old(index) as int, final(state)@, *final(index) as int),
        *old(index) < *final(index) <= old(state)@.content.len(),
        final(state)@.content == old(state)@.content,
        reader_ok(final(state)@),
{
    let ghost s0 = state@;
    let ghost i0 = *index as int;
    if is_comment(state, index) {
        proof {
            assert(*index < s0.content.len());
            assert(state@.content == s0.content);
            assert(state@.content.len() == state.content.len());
        }
        *index = *index + 1;
        return;
    }
    if should_not_ignore_white_space(index, state) {
        proof {
            assert(state@.content == s0.content);
            assert(state@.content.len() == state.content.len());
            assert(*index < state.content.len());
        }
        *index = *index + 1;
        return;
    }
    let stage = copy_stage(&state.curr_stage);
    match stage {
        ProcDecalarationStage::NoStoredProcedure => no_stored_procedure_stage(state, index),
        ProcDecalarationStage::ProcedureKeyWord => stored_procedure_key_word_stage(state, index),
        ProcDecalarationStage::ProcedureName(curr_proc_name) => {
            stored_procedure_name_stage(state, index, &curr_proc_name)
        },
        ProcDecalarationStage::OpenBracket => open_bracket_stage(state, index),
        ProcDecalarationStage::Variable(variable_stage) => variable_stages(index, state, &variable_stage),
        ProcDecalarationStage::VariableSeparator(var_sep_stages) => {
            variable_separation_stages_decision(index, state, var_sep_stages)
        },
        ProcDecalarationStage::PackageName(curr_str_val) => package_name_stage(state, index, &curr_str_val),
        ProcDecalarationStage::CommentSection(info) => match info.comment_type {
            CommentType::OneLiner => comment_type_one_liner(state, index, &info.previous_stage),
            CommentType::Section => comment_type_section(state, index, &info.previous_stage),
        },
    }
    proof {
        assert(state@.content == s0.content);
        assert(state@.content.len() == state.content.len());
        assert(*index < state.content.len());
    }
    *index = *index + 1;
}

proof fn lemma_ascii_utf8_len(s: Seq<char>)
    requires
        all_ascii(s),
    ensures
        utf8_len(s) == s.len(),
    decreases s.len(),
{
    if s.len() > 0 {
        assert(all_ascii(s.drop_last())) by {
            assert forall|i: int| 0 <= i < s.drop_last().len() implies (#[trigger] s.drop_last()[i] as int) < 128 by {
                assert(s.drop_last()[i] == s[i]);
            }
        }
        assert((s[s.len() - 1] as int) < 128);
        lemma_ascii_utf8_len(s.drop_last());
    }
}

/// The reader's state before the first character of `content`.
pub open spec fn reader_start(content: Seq<char>) -> StateView {
    StateView {
        meta_data_json_arr: Seq::empty(),
        request_json_arr: Seq::empty(),
        stored_procedures: Seq::empty(),
        curr_stage: ProcDecalarationStage::NoStoredProcedure,
        content: content,
        package_name: Seq::empty(),
    }
}

/// The step from `run[k]` to `run[k + 1]`, at the positions `pos[k]` and `pos[k + 1]`.
pub open spec fn run_step_at(run: Seq<StateView>, pos: Seq<int>, k: int) -> bool {
    reader_step(run[k], pos[k], run[k + 1], pos[k + 1])
}

/// `run` and `pos` are a complete run of the reader over `content`: from its start, step by
/// step, until the position reaches the end.
pub open spec fn complete_run(content: Seq<char>, run: Seq<StateView>, pos: Seq<int>) -> bool {
    &&& run.len() >= 1
    &&& pos.len() == run.len()
    &&& run[0] == reader_start(content)
    &&& pos[0] == 0
    &&& forall|k: int| 0 <= k < run.len() - 1 ==> #[trigger] pos[k] < content.len()
    &&& forall|k: int| 0 <= k < run.len() - 1 ==> #[trigger] run_step_at(run, pos, k)
    &&& pos.last() >= content.len()
}

/// Reads the stored procedure declarations of `cntnt` and describes them as a JSON array
/// (see [`procedures_json_text`]); the text must be ASCII, as the reader counts its
/// positions in bytes.
pub fn stored_procedure_to_json(cntnt: &String) -> (r: Result<String, String>)
    requires
        all_ascii(cntnt@),
    ensures
        r is Ok,
        exists|run: Seq<StateView>, pos: Seq<int>|
            #[trigger] complete_run(cntnt@, run, pos) && r->Ok_0@ == procedures_json_text(
                run.last().stored_procedures,
                run.last().package_name,
            ),
{
    let mut state = State::new();
    state.content = chars_of(cntnt.as_str());
    let n = utf8_byte_len(cntnt.as_str());
    proof {
        lemma_ascii_utf8_len(cntnt@);
        assert(state@ == reader_start(cntnt@));
    }
    let mut curr_index: usize = 0;
    let ghost mut run: Seq<StateView> = seq![state@];
    let ghost mut pos: Seq<int> = seq![0int];
    while curr_index < n
        invariant
            n == cntnt@.len(),
            state@.content == cntnt@,
            curr_index <= n,
            reader_ok(state@),
            curr_index == 0 ==> state@.curr_stage == ProcDecalarationStage::NoStoredProcedure,
            run.len() >= 1,
            pos.len() == run.len(),
            run[0] == reader_start(cntnt@),
            pos[0] == 0,
            run.last() == state@,
            pos.last() == curr_index as int,
            forall|k: int| 0 <= k < run.len() - 1 ==> #[trigger] pos[k] < cntnt@.len(),
            forall|k: int| 0 <= k < run.len() - 1 ==> #[trigger] run_step_at(run, pos, k),
        decreases n - curr_index,
    {
        let ghost before = state@;
        let ghost i0 = curr_index as int;
        to_json(&mut curr_index, &mut state);
        proof {
            let run2 = run.push(state@);
            let pos2 = pos.push(curr_index as int);
            assert forall|k: int| 0 <= k < run2.len() - 1 implies #[trigger] pos2[k] < cntnt@.len() && run_step_at(run2, pos2, k) by {
                if k < run.len() - 1 {
                    assert(run_step_at(run, pos, k));
                    assert(run2[k] == run[k] && run2[k + 1] == run[k + 1]);
                    assert(pos2[k] == pos[k] && pos2[k + 1] == pos[k + 1]);
                } else {
                    assert(run2[k] == before && run2[k + 1] == state@);
                    assert(pos2[k] == i0 && pos2[k + 1] == curr_index as int);
                }
            }
            run = run2;
            pos = pos2;
        }
    }
    let res = construct_json_data(state.stored_procedures, &state.package_name);
    proof {
        assert(complete_run(cntnt@, run, pos));
    }
    Ok(res)
}

} // verus!
