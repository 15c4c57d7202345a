//! What the compiling of one contract computes and decides by itself: the
//! order of the steps for each kind of source code, how a failed step is
//! reported, and the texts and hashes of the metadata.

use vstd::prelude::*;
use vstd::string::StringSliceAdditionalSpecFns;
use crate::bindings::{hex_encode, keccak256, keccak256_digest};

verus! {

/// The kind of source code that a contract comes in.
#[derive(Debug, Clone, Copy, PartialEq, Eq, Hash, Structural)]
pub enum IRKind {
    /// Yul.
    Yul,
    /// EVM legacy assembly.
    EVMLA,
    /// LLVM IR.
    LLVMIR,
    /// EraVM assembly text.
    ZKASM,
}

/// One step of compiling a contract.
#[derive(Debug, Clone, Copy, PartialEq, Eq, Hash, Structural)]
pub enum CompileStep {
    /// Build the contract from its assembly text, without a module.
    AssembleText,
    /// Read the module from the text of the LLVM IR.
    ParseModule,
    /// Create an empty module, named by the path of the contract.
    CreateModule,
    /// Create the code generation context around the module.
    CreateContext,
    /// Hand the context the data for Solidity.
    SetSolidityData,
    /// Hand the context the data for Yul.
    SetYulData,
    /// Hand the context the data for EVM legacy assembly.
    SetEVMLAData,
    /// Take the factory dependencies out of the source code data.
    DrainFactoryDependencies,
    /// Run the declaration pass.
    Declare,
    /// Run the definition pass.
    Define,
    /// Build the bytecode from the module.
    Build,
}

/// How the failure of a step reaches the caller.
#[derive(Debug, Clone, Copy, PartialEq, Eq, Hash, Structural)]
pub enum Report {
    /// The step cannot fail.
    Never,
    /// The error of the step, as it is.
    Unchanged,
    /// An error that holds the text of the error of the step.
    AsText,
    /// An error that names the contract and the declaration pass.
    DeclarationPass,
    /// An error that names the contract and the definition pass.
    DefinitionPass,
}

/// One of the two passes of the code generator over a contract.
#[derive(Debug, Clone, Copy, PartialEq, Eq, Hash, Structural)]
pub enum Pass {
    /// The pass that declares.
    Declaration,
    /// The pass that defines.
    Definition,
}

/// The steps of compiling a contract of the kind, in order. Assembly text is
/// built in one step. Every other kind gets a module (read from the text for
/// LLVM IR, empty otherwise) and a context with the data for Solidity and for
/// its own kind; then the factory dependencies are taken out, the two passes
/// run, and the bytecode is built.
pub open spec fn plan(kind: IRKind) -> Seq<CompileStep> {
    match kind {
        IRKind::ZKASM => seq![CompileStep::AssembleText],
        IRKind::LLVMIR => seq![
            CompileStep::ParseModule,
            CompileStep::CreateContext,
            CompileStep::SetSolidityData,
            CompileStep::DrainFactoryDependencies,
            CompileStep::Declare,
            CompileStep::Define,
            CompileStep::Build,
        ],
        IRKind::Yul => seq![
            CompileStep::CreateModule,
            CompileStep::CreateContext,
            CompileStep::SetSolidityData,
            CompileStep::SetYulData,
            CompileStep::DrainFactoryDependencies,
            CompileStep::Declare,
            CompileStep::Define,
            CompileStep::Build,
        ],
        IRKind::EVMLA => seq![
            CompileStep::CreateModule,
            CompileStep::CreateContext,
            CompileStep::SetSolidityData,
            CompileStep::SetEVMLAData,
            CompileStep::DrainFactoryDependencies,
            CompileStep::Declare,
            CompileStep::Define,
            CompileStep::Build,
        ],
    }
}

/// How the failure of the step reaches the caller.
pub open spec fn report_of(step: CompileStep) -> Report {
    match step {
        CompileStep::ParseModule => Report::AsText,
        CompileStep::AssembleText | CompileStep::Build => Report::Unchanged,
        CompileStep::Declare => Report::DeclarationPass,
        CompileStep::Define => Report::DefinitionPass,
        _ => Report::Never,
    }
}

/// The word for a pass in the message of an error.
pub open spec fn pass_word(pass: Pass) -> Seq<char> {
    match pass {
        Pass::Declaration => "declaration"@,
        Pass::Definition => "definition"@,
    }
}

/// The message of the error that a failed pass is reported with.
pub open spec fn pass_error_text(path: Seq<char>, pass: Pass, error: Seq<char>) -> Seq<char> {
    "The contract `"@ + path + "` LLVM IR generator "@ + pass_word(pass) + " pass error: "@ + error
}

/// The lower-case hexadecimal digit for `n`, for `n` below sixteen.
pub open spec fn hex_digit(n: nat) -> char {
    if n < 10 {
        ('0' as nat + n) as char
    } else {
        ('a' as nat + n - 10) as char
    }
}

/// The bytes in hexadecimal: two lower-case digits for each byte, the high
/// one first.
pub open spec fn hex_text(data: Seq<u8>) -> Seq<char> {
    Seq::new(
        2 * data.len(),
        |i: int|
            if i % 2 == 0 {
                hex_digit(data[i / 2] as nat / 16)
            } else {
                hex_digit(data[i / 2] as nat % 16)
            },
    )
}

/// What a contract reads of source code in Yul.
#[derive(Debug)]
pub struct Yul {
    /// The identifier of the Yul object.
    pub identifier: String,
    /// The factory dependencies of the Yul object.
    pub factory_dependencies: Vec<String>,
}

/// What a contract reads of source code in EVM legacy assembly.
#[derive(Debug)]
pub struct EVMLA {
    /// The full path of the assembly.
    pub full_path: String,
    /// The factory dependencies of the assembly.
    pub factory_dependencies: Vec<String>,
}

/// What a contract reads of source code in LLVM IR.
#[derive(Debug)]
pub struct LLVMIR {
    /// The path to the module.
    pub path: String,
    /// The text of the module.
    pub source: String,
}

/// What a contract reads of source code in EraVM assembly.
#[derive(Debug)]
pub struct ZKASM {
    /// The path to the assembly.
    pub path: String,
    /// The text of the assembly.
    pub source: String,
}

/// The source code data of a contract, as far as the contract itself reads
/// them.
#[derive(Debug)]
pub enum IR {
    /// Yul.
    Yul(Yul),
    /// EVM legacy assembly.
    EVMLA(EVMLA),
    /// LLVM IR.
    LLVMIR(LLVMIR),
    /// EraVM assembly text.
    ZKASM(ZKASM),
}

impl IR {
    /// The kind of the source code.
    pub open spec fn kind_of(&self) -> IRKind {
        match self {
            IR::Yul(_) => IRKind::Yul,
            IR::EVMLA(_) => IRKind::EVMLA,
            IR::LLVMIR(_) => IRKind::LLVMIR,
            IR::ZKASM(_) => IRKind::ZKASM,
        }
    }

    /// What identifies the contract: the identifier of the object for Yul,
    /// the full path for EVM legacy assembly, and the path for LLVM IR and
    /// for EraVM assembly.
    pub open spec fn identifier_text(&self) -> Seq<char> {
        match self {
            IR::Yul(yul) => yul.identifier@,
            IR::EVMLA(evmla) => evmla.full_path@,
            IR::LLVMIR(llvm_ir) => llvm_ir.path@,
            IR::ZKASM(zkasm) => zkasm.path@,
        }
    }

    /// The factory dependencies that the source code names: those of the
    /// object for Yul, those of the assembly for EVM legacy assembly, and
    /// none for the other kinds.
    pub open spec fn dependencies(&self) -> Seq<String> {
        match self {
            IR::Yul(yul) => yul.factory_dependencies@,
            IR::EVMLA(evmla) => evmla.factory_dependencies@,
            IR::LLVMIR(_) => Seq::empty(),
            IR::ZKASM(_) => Seq::empty(),
        }
    }

    /// The kind of the source code.
    pub fn kind(&self) -> (kind: IRKind)
        ensures
            kind == self.kind_of(),
    {
        match self {
            IR::Yul(_) => IRKind::Yul,
            IR::EVMLA(_) => IRKind::EVMLA,
            IR::LLVMIR(_) => IRKind::LLVMIR,
            IR::ZKASM(_) => IRKind::ZKASM,
        }
    }
}

/// The metadata of a contract.
#[derive(Debug)]
pub enum MetadataJson {
    /// The JSON that the caller gave.
    Given(serde_json::Value),
    /// The metadata that stand in where the caller gave none: the hash of
    /// the source code in hexadecimal, and the version of the source code.
    Source { source_hash: String, source_version: semver::Version },
}

/// The contract data.
#[derive(Debug)]
pub struct Contract {
    /// The absolute file path.
    pub path: String,
    /// The IR source code data.
    pub ir: IR,
    /// The metadata JSON.
    pub metadata_json: MetadataJson,
}

impl Contract {
    /// A shortcut constructor.
    ///
    /// Where `metadata_json` is `None`, the metadata are made of the hash
    /// and the version of the source code.
    pub fn new(
        path: String,
        source_hash: [u8; 32],
        source_version: semver::Version,
        ir: IR,
        metadata_json: Option<serde_json::Value>,
    ) -> (contract: Contract)
        ensures
            contract.path == path,
            contract.ir == ir,
            match metadata_json {
                Some(given) => contract.metadata_json == MetadataJson::Given(given),
                None => match contract.metadata_json {
                    MetadataJson::Source { source_hash: text, source_version: version } => text@
                        == hex_text(source_hash@) && version == source_version,
                    MetadataJson::Given(_) => false,
                },
            },
    {
        let metadata_json = match metadata_json {
            Some(given) => MetadataJson::Given(given),
            None => MetadataJson::Source {
                source_hash: source_hash_text(&source_hash),
                source_version,
            },
        };
        Contract { path, ir, metadata_json }
    }

    /// Returns the contract identifier, which is:
    /// - the Yul object identifier for Yul
    /// - the full contract path for EVM legacy assembly
    /// - the module name for LLVM IR
    /// - the path for EraVM assembly
    pub fn identifier(&self) -> (identifier: &str)
        ensures
            identifier@ == self.ir.identifier_text(),
    {
        match &self.ir {
            IR::Yul(yul) => yul.identifier.as_str(),
            IR::EVMLA(evmla) => evmla.full_path.as_str(),
            IR::LLVMIR(llvm_ir) => llvm_ir.path.as_str(),
            IR::ZKASM(zkasm) => zkasm.path.as_str(),
        }
    }

    /// Extract factory dependencies: hands them out and leaves the source
    /// code data with none.
    pub fn drain_factory_dependencies(&mut self) -> (drained: Vec<String>)
        ensures
            drained@ == old(self).ir.dependencies(),
            final(self).ir.dependencies() == Seq::<String>::empty(),
            final(self).ir.kind_of() == old(self).ir.kind_of(),
            final(self).ir.identifier_text() == old(self).ir.identifier_text(),
            !old(self).ir.kind_of().carries_dependencies() ==> final(self).ir == old(self).ir,
            final(self).path == old(self).path,
            final(self).metadata_json == old(self).metadata_json,
    {
        let mut drained: Vec<String> = Vec::new();
        match &mut self.ir {
            IR::Yul(yul) => {
                core::mem::swap(&mut yul.factory_dependencies, &mut drained);
            },
            IR::EVMLA(evmla) => {
                core::mem::swap(&mut evmla.factory_dependencies, &mut drained);
            },
            IR::LLVMIR(_) => {},
            IR::ZKASM(_) => {},
        }
        drained
    }

    /// The steps of compiling the contract, in order.
    pub fn compile_plan(&self) -> (steps: Vec<CompileStep>)
        ensures
            steps@ == plan(self.ir.kind_of()),
    {
        self.ir.kind().compile_plan()
    }
}

impl IRKind {
    /// Whether source code of the kind can name factory dependencies.
    pub open spec fn carries_dependencies(self) -> bool {
        self == IRKind::Yul || self == IRKind::EVMLA
    }

    /// Whether source code of the kind can name factory dependencies.
    pub fn has_factory_dependencies(self) -> (has: bool)
        ensures
            has == self.carries_dependencies(),
    {
        match self {
            IRKind::Yul | IRKind::EVMLA => true,
            IRKind::LLVMIR | IRKind::ZKASM => false,
        }
    }

    /// The steps of compiling a contract of the kind, in order.
    pub fn compile_plan(self) -> (steps: Vec<CompileStep>)
        ensures
            steps@ == plan(self),
    {
        let mut steps: Vec<CompileStep> = Vec::new();
        match self {
            IRKind::ZKASM => {
                steps.push(CompileStep::AssembleText);
            },
            IRKind::LLVMIR => {
                steps.push(CompileStep::ParseModule);
                steps.push(CompileStep::CreateContext);
                steps.push(CompileStep::SetSolidityData);
            },
            IRKind::Yul => {
                steps.push(CompileStep::CreateModule);
                steps.push(CompileStep::CreateContext);
                steps.push(CompileStep::SetSolidityData);
                steps.push(CompileStep::SetYulData);
            },
            IRKind::EVMLA => {
                steps.push(CompileStep::CreateModule);
                steps.push(CompileStep::CreateContext);
                steps.push(CompileStep::SetSolidityData);
                steps.push(CompileStep::SetEVMLAData);
            },
        }
        if self != IRKind::ZKASM {
            steps.push(CompileStep::DrainFactoryDependencies);
            steps.push(CompileStep::Declare);
            steps.push(CompileStep::Define);
            steps.push(CompileStep::Build);
        }
        assert(steps@ =~= plan(self));
        steps
    }
}

impl CompileStep {
    /// How the failure of the step reaches the caller.
    pub fn report(self) -> (report: Report)
        ensures
            report == report_of(self),
    {
        match self {
            CompileStep::ParseModule => Report::AsText,
            CompileStep::AssembleText | CompileStep::Build => Report::Unchanged,
            CompileStep::Declare => Report::DeclarationPass,
            CompileStep::Define => Report::DefinitionPass,
            _ => Report::Never,
        }
    }
}

/// The message of the error that a failed pass over the contract at `path`
/// is reported with.
pub fn pass_error(path: &str, pass: Pass, error: &str) -> (message: String)
    ensures
        message@ == pass_error_text(path@, pass, error@),
{
    let mut message = "The contract `".to_owned();
    message.append(path);
    message.append("` LLVM IR generator ");
    match pass {
        Pass::Declaration => message.append("declaration"),
        Pass::Definition => message.append("definition"),
    }
    message.append(" pass error: ");
    message.append(error);
    message
}

/// The hash of the source code in the text form that the metadata hold.
pub fn source_hash_text(source_hash: &[u8; 32]) -> (text: String)
    ensures
        text@ == hex_text(source_hash@),
{
    hex_encode(source_hash.as_slice())
}

/// The hash of the metadata that goes into the bytecode: the Keccak-256
/// digest of the metadata in text, where a hash is asked for at all.
pub fn metadata_hash(metadata: &str, include_metadata_hash: bool) -> (hash: Option<[u8; 32]>)
    ensures
        match hash {
            Some(digest) => include_metadata_hash && digest@ == keccak256(metadata.spec_bytes()),
            None => !include_metadata_hash,
        },
{
    if include_metadata_hash {
        Some(keccak256_digest(metadata.as_bytes()))
    } else {
        None
    }
}

} // verus!
