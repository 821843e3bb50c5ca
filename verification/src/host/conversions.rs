//! Remote host method ids (MS-PSRP 2.2.3.17) and which of them answer the server.
use vstd::prelude::*;
use vstd::string::*;

use crate::host::error::HostError;

verus! {

/// Remote host method identifiers (MS-PSRP 2.2.3.17).
#[derive(Debug, Clone, Copy, PartialEq, Eq, Structural)]
pub enum RemoteHostMethodId {
    GetName,
    GetVersion,
    GetInstanceId,
    GetCurrentCulture,
    GetCurrentUICulture,
    SetShouldExit,
    EnterNestedPrompt,
    ExitNestedPrompt,
    NotifyBeginApplication,
    NotifyEndApplication,
    ReadLine,
    ReadLineAsSecureString,
    Write1,
    Write2,
    WriteLine1,
    WriteLine2,
    WriteLine3,
    WriteErrorLine,
    WriteDebugLine,
    WriteProgress,
    WriteVerboseLine,
    WriteWarningLine,
    Prompt,
    PromptForCredential1,
    PromptForCredential2,
    PromptForChoice,
    GetForegroundColor,
    SetForegroundColor,
    GetBackgroundColor,
    SetBackgroundColor,
    GetCursorPosition,
    SetCursorPosition,
    GetWindowPosition,
    SetWindowPosition,
    GetCursorSize,
    SetCursorSize,
    GetBufferSize,
    SetBufferSize,
    GetWindowSize,
    SetWindowSize,
    GetWindowTitle,
    SetWindowTitle,
    GetMaxWindowSize,
    GetMaxPhysicalWindowSize,
    GetKeyAvailable,
    ReadKey,
    FlushInputBuffer,
    SetBufferContents1,
    SetBufferContents2,
    GetBufferContents,
    ScrollBufferContents,
    PushRunspace,
    PopRunspace,
    GetIsRunspacePushed,
    GetRunspace,
    PromptForChoiceMultipleSelection,
}

impl RemoteHostMethodId {
    /// The protocol id of the method.
    pub open spec fn spec_value(self) -> i32 {
        match self {
            RemoteHostMethodId::GetName => 1,
            RemoteHostMethodId::GetVersion => 2,
            RemoteHostMethodId::GetInstanceId => 3,
            RemoteHostMethodId::GetCurrentCulture => 4,
            RemoteHostMethodId::GetCurrentUICulture => 5,
            RemoteHostMethodId::SetShouldExit => 6,
            RemoteHostMethodId::EnterNestedPrompt => 7,
            RemoteHostMethodId::ExitNestedPrompt => 8,
            RemoteHostMethodId::NotifyBeginApplication => 9,
            RemoteHostMethodId::NotifyEndApplication => 10,
            RemoteHostMethodId::ReadLine => 11,
            RemoteHostMethodId::ReadLineAsSecureString => 12,
            RemoteHostMethodId::Write1 => 13,
            RemoteHostMethodId::Write2 => 14,
            RemoteHostMethodId::WriteLine1 => 15,
            RemoteHostMethodId::WriteLine2 => 16,
            RemoteHostMethodId::WriteLine3 => 17,
            RemoteHostMethodId::WriteErrorLine => 18,
            RemoteHostMethodId::WriteDebugLine => 19,
            RemoteHostMethodId::WriteProgress => 20,
            RemoteHostMethodId::WriteVerboseLine => 21,
            RemoteHostMethodId::WriteWarningLine => 22,
            RemoteHostMethodId::Prompt => 23,
            RemoteHostMethodId::PromptForCredential1 => 24,
            RemoteHostMethodId::PromptForCredential2 => 25,
            RemoteHostMethodId::PromptForChoice => 26,
            RemoteHostMethodId::GetForegroundColor => 27,
            RemoteHostMethodId::SetForegroundColor => 28,
            RemoteHostMethodId::GetBackgroundColor => 29,
            RemoteHostMethodId::SetBackgroundColor => 30,
            RemoteHostMethodId::GetCursorPosition => 31,
            RemoteHostMethodId::SetCursorPosition => 32,
            RemoteHostMethodId::GetWindowPosition => 33,
            RemoteHostMethodId::SetWindowPosition => 34,
            RemoteHostMethodId::GetCursorSize => 35,
            RemoteHostMethodId::SetCursorSize => 36,
            RemoteHostMethodId::GetBufferSize => 37,
            RemoteHostMethodId::SetBufferSize => 38,
            RemoteHostMethodId::GetWindowSize => 39,
            RemoteHostMethodId::SetWindowSize => 40,
            RemoteHostMethodId::GetWindowTitle => 41,
            RemoteHostMethodId::SetWindowTitle => 42,
            RemoteHostMethodId::GetMaxWindowSize => 43,
            RemoteHostMethodId::GetMaxPhysicalWindowSize => 44,
            RemoteHostMethodId::GetKeyAvailable => 45,
            RemoteHostMethodId::ReadKey => 46,
            RemoteHostMethodId::FlushInputBuffer => 47,
            RemoteHostMethodId::SetBufferContents1 => 48,
            RemoteHostMethodId::SetBufferContents2 => 49,
            RemoteHostMethodId::GetBufferContents => 50,
            RemoteHostMethodId::ScrollBufferContents => 51,
            RemoteHostMethodId::PushRunspace => 52,
            RemoteHostMethodId::PopRunspace => 53,
            RemoteHostMethodId::GetIsRunspacePushed => 54,
            RemoteHostMethodId::GetRunspace => 55,
            RemoteHostMethodId::PromptForChoiceMultipleSelection => 56,
        }
    }

    pub fn value(&self) -> (r: i32)
        ensures
            r == self.spec_value(),
    {
        match self {
            RemoteHostMethodId::GetName => 1,
            RemoteHostMethodId::GetVersion => 2,
            RemoteHostMethodId::GetInstanceId => 3,
            RemoteHostMethodId::GetCurrentCulture => 4,
            RemoteHostMethodId::GetCurrentUICulture => 5,
            RemoteHostMethodId::SetShouldExit => 6,
            RemoteHostMethodId::EnterNestedPrompt => 7,
            RemoteHostMethodId::ExitNestedPrompt => 8,
            RemoteHostMethodId::NotifyBeginApplication => 9,
            RemoteHostMethodId::NotifyEndApplication => 10,
            RemoteHostMethodId::ReadLine => 11,
            RemoteHostMethodId::ReadLineAsSecureString => 12,
            RemoteHostMethodId::Write1 => 13,
            RemoteHostMethodId::Write2 => 14,
            RemoteHostMethodId::WriteLine1 => 15,
            RemoteHostMethodId::WriteLine2 => 16,
            RemoteHostMethodId::WriteLine3 => 17,
            RemoteHostMethodId::WriteErrorLine => 18,
            RemoteHostMethodId::WriteDebugLine => 19,
            RemoteHostMethodId::WriteProgress => 20,
            RemoteHostMethodId::WriteVerboseLine => 21,
            RemoteHostMethodId::WriteWarningLine => 22,
            RemoteHostMethodId::Prompt => 23,
            RemoteHostMethodId::PromptForCredential1 => 24,
            RemoteHostMethodId::PromptForCredential2 => 25,
            RemoteHostMethodId::PromptForChoice => 26,
            RemoteHostMethodId::GetForegroundColor => 27,
            RemoteHostMethodId::SetForegroundColor => 28,
            RemoteHostMethodId::GetBackgroundColor => 29,
            RemoteHostMethodId::SetBackgroundColor => 30,
            RemoteHostMethodId::GetCursorPosition => 31,
            RemoteHostMethodId::SetCursorPosition => 32,
            RemoteHostMethodId::GetWindowPosition => 33,
            RemoteHostMethodId::SetWindowPosition => 34,
            RemoteHostMethodId::GetCursorSize => 35,
            RemoteHostMethodId::SetCursorSize => 36,
            RemoteHostMethodId::GetBufferSize => 37,
            RemoteHostMethodId::SetBufferSize => 38,
            RemoteHostMethodId::GetWindowSize => 39,
            RemoteHostMethodId::SetWindowSize => 40,
            RemoteHostMethodId::GetWindowTitle => 41,
            RemoteHostMethodId::SetWindowTitle => 42,
            RemoteHostMethodId::GetMaxWindowSize => 43,
            RemoteHostMethodId::GetMaxPhysicalWindowSize => 44,
            RemoteHostMethodId::GetKeyAvailable => 45,
            RemoteHostMethodId::ReadKey => 46,
            RemoteHostMethodId::FlushInputBuffer => 47,
            RemoteHostMethodId::SetBufferContents1 => 48,
            RemoteHostMethodId::SetBufferContents2 => 49,
            RemoteHostMethodId::GetBufferContents => 50,
            RemoteHostMethodId::ScrollBufferContents => 51,
            RemoteHostMethodId::PushRunspace => 52,
            RemoteHostMethodId::PopRunspace => 53,
            RemoteHostMethodId::GetIsRunspacePushed => 54,
            RemoteHostMethodId::GetRunspace => 55,
            RemoteHostMethodId::PromptForChoiceMultipleSelection => 56,
        }
    }

    /// The method with the given protocol id; ids outside 1..=56 are not implemented.
    pub fn try_from(v: i32) -> (r: Result<Self, HostError>)
        ensures
            match r {
                Ok(m) => m.spec_value() == v,
                Err(e) => e == HostError::NotImplemented && (v < 1 || v > 56),
            },
    {
        match v {
            1 => Ok(RemoteHostMethodId::GetName),
            2 => Ok(RemoteHostMethodId::GetVersion),
            3 => Ok(RemoteHostMethodId::GetInstanceId),
            4 => Ok(RemoteHostMethodId::GetCurrentCulture),
            5 => Ok(RemoteHostMethodId::GetCurrentUICulture),
            6 => Ok(RemoteHostMethodId::SetShouldExit),
            7 => Ok(RemoteHostMethodId::EnterNestedPrompt),
            8 => Ok(RemoteHostMethodId::ExitNestedPrompt),
            9 => Ok(RemoteHostMethodId::NotifyBeginApplication),
            10 => Ok(RemoteHostMethodId::NotifyEndApplication),
            11 => Ok(RemoteHostMethodId::ReadLine),
            12 => Ok(RemoteHostMethodId::ReadLineAsSecureString),
            13 => Ok(RemoteHostMethodId::Write1),
            14 => Ok(RemoteHostMethodId::Write2),
            15 => Ok(RemoteHostMethodId::WriteLine1),
            16 => Ok(RemoteHostMethodId::WriteLine2),
            17 => Ok(RemoteHostMethodId::WriteLine3),
            18 => Ok(RemoteHostMethodId::WriteErrorLine),
            19 => Ok(RemoteHostMethodId::WriteDebugLine),
            20 => Ok(RemoteHostMethodId::WriteProgress),
            21 => Ok(RemoteHostMethodId::WriteVerboseLine),
            22 => Ok(RemoteHostMethodId::WriteWarningLine),
            23 => Ok(RemoteHostMethodId::Prompt),
            24 => Ok(RemoteHostMethodId::PromptForCredential1),
            25 => Ok(RemoteHostMethodId::PromptForCredential2),
            26 => Ok(RemoteHostMethodId::PromptForChoice),
            27 => Ok(RemoteHostMethodId::GetForegroundColor),
            28 => Ok(RemoteHostMethodId::SetForegroundColor),
            29 => Ok(RemoteHostMethodId::GetBackgroundColor),
            30 => Ok(RemoteHostMethodId::SetBackgroundColor),
            31 => Ok(RemoteHostMethodId::GetCursorPosition),
            32 => Ok(RemoteHostMethodId::SetCursorPosition),
            33 => Ok(RemoteHostMethodId::GetWindowPosition),
            34 => Ok(RemoteHostMethodId::SetWindowPosition),
            35 => Ok(RemoteHostMethodId::GetCursorSize),
            36 => Ok(RemoteHostMethodId::SetCursorSize),
            37 => Ok(RemoteHostMethodId::GetBufferSize),
            38 => Ok(RemoteHostMethodId::SetBufferSize),
            39 => Ok(RemoteHostMethodId::GetWindowSize),
            40 => Ok(RemoteHostMethodId::SetWindowSize),
            41 => Ok(RemoteHostMethodId::GetWindowTitle),
            42 => Ok(RemoteHostMethodId::SetWindowTitle),
            43 => Ok(RemoteHostMethodId::GetMaxWindowSize),
            44 => Ok(RemoteHostMethodId::GetMaxPhysicalWindowSize),
            45 => Ok(RemoteHostMethodId::GetKeyAvailable),
            46 => Ok(RemoteHostMethodId::ReadKey),
            47 => Ok(RemoteHostMethodId::FlushInputBuffer),
            48 => Ok(RemoteHostMethodId::SetBufferContents1),
            49 => Ok(RemoteHostMethodId::SetBufferContents2),
            50 => Ok(RemoteHostMethodId::GetBufferContents),
            51 => Ok(RemoteHostMethodId::ScrollBufferContents),
            52 => Ok(RemoteHostMethodId::PushRunspace),
            53 => Ok(RemoteHostMethodId::PopRunspace),
            54 => Ok(RemoteHostMethodId::GetIsRunspacePushed),
            55 => Ok(RemoteHostMethodId::GetRunspace),
            56 => Ok(RemoteHostMethodId::PromptForChoiceMultipleSelection),
            _ => Err(HostError::NotImplemented),
        }
    }

    /// The method's name (as `Debug` prints it).
    pub open spec fn spec_name(self) -> Seq<char> {
        match self {
            RemoteHostMethodId::GetName => "GetName"@,
            RemoteHostMethodId::GetVersion => "GetVersion"@,
            RemoteHostMethodId::GetInstanceId => "GetInstanceId"@,
            RemoteHostMethodId::GetCurrentCulture => "GetCurrentCulture"@,
            RemoteHostMethodId::GetCurrentUICulture => "GetCurrentUICulture"@,
            RemoteHostMethodId::SetShouldExit => "SetShouldExit"@,
            RemoteHostMethodId::EnterNestedPrompt => "EnterNestedPrompt"@,
            RemoteHostMethodId::ExitNestedPrompt => "ExitNestedPrompt"@,
            RemoteHostMethodId::NotifyBeginApplication => "NotifyBeginApplication"@,
            RemoteHostMethodId::NotifyEndApplication => "NotifyEndApplication"@,
            RemoteHostMethodId::ReadLine => "ReadLine"@,
            RemoteHostMethodId::ReadLineAsSecureString => "ReadLineAsSecureString"@,
            RemoteHostMethodId::Write1 => "Write1"@,
            RemoteHostMethodId::Write2 => "Write2"@,
            RemoteHostMethodId::WriteLine1 => "WriteLine1"@,
            RemoteHostMethodId::WriteLine2 => "WriteLine2"@,
            RemoteHostMethodId::WriteLine3 => "WriteLine3"@,
            RemoteHostMethodId::WriteErrorLine => "WriteErrorLine"@,
            RemoteHostMethodId::WriteDebugLine => "WriteDebugLine"@,
            RemoteHostMethodId::WriteProgress => "WriteProgress"@,
            RemoteHostMethodId::WriteVerboseLine => "WriteVerboseLine"@,
            RemoteHostMethodId::WriteWarningLine => "WriteWarningLine"@,
            RemoteHostMethodId::Prompt => "Prompt"@,
            RemoteHostMethodId::PromptForCredential1 => "PromptForCredential1"@,
            RemoteHostMethodId::PromptForCredential2 => "PromptForCredential2"@,
            RemoteHostMethodId::PromptForChoice => "PromptForChoice"@,
            RemoteHostMethodId::GetForegroundColor => "GetForegroundColor"@,
            RemoteHostMethodId::SetForegroundColor => "SetForegroundColor"@,
            RemoteHostMethodId::GetBackgroundColor => "GetBackgroundColor"@,
            RemoteHostMethodId::SetBackgroundColor => "SetBackgroundColor"@,
            RemoteHostMethodId::GetCursorPosition => "GetCursorPosition"@,
            RemoteHostMethodId::SetCursorPosition => "SetCursorPosition"@,
            RemoteHostMethodId::GetWindowPosition => "GetWindowPosition"@,
            RemoteHostMethodId::SetWindowPosition => "SetWindowPosition"@,
            RemoteHostMethodId::GetCursorSize => "GetCursorSize"@,
            RemoteHostMethodId::SetCursorSize => "SetCursorSize"@,
            RemoteHostMethodId::GetBufferSize => "GetBufferSize"@,
            RemoteHostMethodId::SetBufferSize => "SetBufferSize"@,
            RemoteHostMethodId::GetWindowSize => "GetWindowSize"@,
            RemoteHostMethodId::SetWindowSize => "SetWindowSize"@,
            RemoteHostMethodId::GetWindowTitle => "GetWindowTitle"@,
            RemoteHostMethodId::SetWindowTitle => "SetWindowTitle"@,
            RemoteHostMethodId::GetMaxWindowSize => "GetMaxWindowSize"@,
            RemoteHostMethodId::GetMaxPhysicalWindowSize => "GetMaxPhysicalWindowSize"@,
            RemoteHostMethodId::GetKeyAvailable => "GetKeyAvailable"@,
            RemoteHostMethodId::ReadKey => "ReadKey"@,
            RemoteHostMethodId::FlushInputBuffer => "FlushInputBuffer"@,
            RemoteHostMethodId::SetBufferContents1 => "SetBufferContents1"@,
            RemoteHostMethodId::SetBufferContents2 => "SetBufferContents2"@,
            RemoteHostMethodId::GetBufferContents => "GetBufferContents"@,
            RemoteHostMethodId::ScrollBufferContents => "ScrollBufferContents"@,
            RemoteHostMethodId::PushRunspace => "PushRunspace"@,
            RemoteHostMethodId::PopRunspace => "PopRunspace"@,
            RemoteHostMethodId::GetIsRunspacePushed => "GetIsRunspacePushed"@,
            RemoteHostMethodId::GetRunspace => "GetRunspace"@,
            RemoteHostMethodId::PromptForChoiceMultipleSelection => "PromptForChoiceMultipleSelection"@,
        }
    }

    pub fn name(&self) -> (r: &'static str)
        ensures
            r@ == self.spec_name(),
    {
        proof {
            reveal_strlit("GetName");
            reveal_strlit("GetVersion");
            reveal_strlit("GetInstanceId");
            reveal_strlit("GetCurrentCulture");
            reveal_strlit("GetCurrentUICulture");
            reveal_strlit("SetShouldExit");
            reveal_strlit("EnterNestedPrompt");
            reveal_strlit("ExitNestedPrompt");
            reveal_strlit("NotifyBeginApplication");
            reveal_strlit("NotifyEndApplication");
            reveal_strlit("ReadLine");
            reveal_strlit("ReadLineAsSecureString");
            reveal_strlit("Write1");
            reveal_strlit("Write2");
            reveal_strlit("WriteLine1");
            reveal_strlit("WriteLine2");
            reveal_strlit("WriteLine3");
            reveal_strlit("WriteErrorLine");
            reveal_strlit("WriteDebugLine");
            reveal_strlit("WriteProgress");
            reveal_strlit("WriteVerboseLine");
            reveal_strlit("WriteWarningLine");
            reveal_strlit("Prompt");
            reveal_strlit("PromptForCredential1");
            reveal_strlit("PromptForCredential2");
            reveal_strlit("PromptForChoice");
            reveal_strlit("GetForegroundColor");
            reveal_strlit("SetForegroundColor");
            reveal_strlit("GetBackgroundColor");
            reveal_strlit("SetBackgroundColor");
            reveal_strlit("GetCursorPosition");
            reveal_strlit("SetCursorPosition");
            reveal_strlit("GetWindowPosition");
            reveal_strlit("SetWindowPosition");
            reveal_strlit("GetCursorSize");
            reveal_strlit("SetCursorSize");
            reveal_strlit("GetBufferSize");
            reveal_strlit("SetBufferSize");
            reveal_strlit("GetWindowSize");
            reveal_strlit("SetWindowSize");
            reveal_strlit("GetWindowTitle");
            reveal_strlit("SetWindowTitle");
            reveal_strlit("GetMaxWindowSize");
            reveal_strlit("GetMaxPhysicalWindowSize");
            reveal_strlit("GetKeyAvailable");
            reveal_strlit("ReadKey");
            reveal_strlit("FlushInputBuffer");
            reveal_strlit("SetBufferContents1");
            reveal_strlit("SetBufferContents2");
            reveal_strlit("GetBufferContents");
            reveal_strlit("ScrollBufferContents");
            reveal_strlit("PushRunspace");
            reveal_strlit("PopRunspace");
            reveal_strlit("GetIsRunspacePushed");
            reveal_strlit("GetRunspace");
            reveal_strlit("PromptForChoiceMultipleSelection");
        }
        match self {
            RemoteHostMethodId::GetName => "GetName",
            RemoteHostMethodId::GetVersion => "GetVersion",
            RemoteHostMethodId::GetInstanceId => "GetInstanceId",
            RemoteHostMethodId::GetCurrentCulture => "GetCurrentCulture",
            RemoteHostMethodId::GetCurrentUICulture => "GetCurrentUICulture",
            RemoteHostMethodId::SetShouldExit => "SetShouldExit",
            RemoteHostMethodId::EnterNestedPrompt => "EnterNestedPrompt",
            RemoteHostMethodId::ExitNestedPrompt => "ExitNestedPrompt",
            RemoteHostMethodId::NotifyBeginApplication => "NotifyBeginApplication",
            RemoteHostMethodId::NotifyEndApplication => "NotifyEndApplication",
            RemoteHostMethodId::ReadLine => "ReadLine",
            RemoteHostMethodId::ReadLineAsSecureString => "ReadLineAsSecureString",
            RemoteHostMethodId::Write1 => "Write1",
            RemoteHostMethodId::Write2 => "Write2",
            RemoteHostMethodId::WriteLine1 => "WriteLine1",
            RemoteHostMethodId::WriteLine2 => "WriteLine2",
            RemoteHostMethodId::WriteLine3 => "WriteLine3",
            RemoteHostMethodId::WriteErrorLine => "WriteErrorLine",
            RemoteHostMethodId::WriteDebugLine => "WriteDebugLine",
            RemoteHostMethodId::WriteProgress => "WriteProgress",
            RemoteHostMethodId::WriteVerboseLine => "WriteVerboseLine",
            RemoteHostMethodId::WriteWarningLine => "WriteWarningLine",
            RemoteHostMethodId::Prompt => "Prompt",
            RemoteHostMethodId::PromptForCredential1 => "PromptForCredential1",
            RemoteHostMethodId::PromptForCredential2 => "PromptForCredential2",
            RemoteHostMethodId::PromptForChoice => "PromptForChoice",
            RemoteHostMethodId::GetForegroundColor => "GetForegroundColor",
            RemoteHostMethodId::SetForegroundColor => "SetForegroundColor",
            RemoteHostMethodId::GetBackgroundColor => "GetBackgroundColor",
            RemoteHostMethodId::SetBackgroundColor => "SetBackgroundColor",
            RemoteHostMethodId::GetCursorPosition => "GetCursorPosition",
            RemoteHostMethodId::SetCursorPosition => "SetCursorPosition",
            RemoteHostMethodId::GetWindowPosition => "GetWindowPosition",
            RemoteHostMethodId::SetWindowPosition => "SetWindowPosition",
            RemoteHostMethodId::GetCursorSize => "GetCursorSize",
            RemoteHostMethodId::SetCursorSize => "SetCursorSize",
            RemoteHostMethodId::GetBufferSize => "GetBufferSize",
            RemoteHostMethodId::SetBufferSize => "SetBufferSize",
            RemoteHostMethodId::GetWindowSize => "GetWindowSize",
            RemoteHostMethodId::SetWindowSize => "SetWindowSize",
            RemoteHostMethodId::GetWindowTitle => "GetWindowTitle",
            RemoteHostMethodId::SetWindowTitle => "SetWindowTitle",
            RemoteHostMethodId::GetMaxWindowSize => "GetMaxWindowSize",
            RemoteHostMethodId::GetMaxPhysicalWindowSize => "GetMaxPhysicalWindowSize",
            RemoteHostMethodId::GetKeyAvailable => "GetKeyAvailable",
            RemoteHostMethodId::ReadKey => "ReadKey",
            RemoteHostMethodId::FlushInputBuffer => "FlushInputBuffer",
            RemoteHostMethodId::SetBufferContents1 => "SetBufferContents1",
            RemoteHostMethodId::SetBufferContents2 => "SetBufferContents2",
            RemoteHostMethodId::GetBufferContents => "GetBufferContents",
            RemoteHostMethodId::ScrollBufferContents => "ScrollBufferContents",
            RemoteHostMethodId::PushRunspace => "PushRunspace",
            RemoteHostMethodId::PopRunspace => "PopRunspace",
            RemoteHostMethodId::GetIsRunspacePushed => "GetIsRunspacePushed",
            RemoteHostMethodId::GetRunspace => "GetRunspace",
            RemoteHostMethodId::PromptForChoiceMultipleSelection => "PromptForChoiceMultipleSelection",
        }
    }
}

/// Whether the method returns a value, so that its host call is answered.
pub open spec fn returns_value(id: RemoteHostMethodId) -> bool {
    match id {
        RemoteHostMethodId::GetName
        | RemoteHostMethodId::GetVersion
        | RemoteHostMethodId::GetInstanceId
        | RemoteHostMethodId::GetCurrentCulture
        | RemoteHostMethodId::GetCurrentUICulture
        | RemoteHostMethodId::ReadLine
        | RemoteHostMethodId::ReadLineAsSecureString
        | RemoteHostMethodId::Prompt
        | RemoteHostMethodId::PromptForCredential1
        | RemoteHostMethodId::PromptForCredential2
        | RemoteHostMethodId::PromptForChoice
        | RemoteHostMethodId::GetForegroundColor
        | RemoteHostMethodId::GetBackgroundColor
        | RemoteHostMethodId::GetCursorPosition
        | RemoteHostMethodId::GetWindowPosition
        | RemoteHostMethodId::GetCursorSize
        | RemoteHostMethodId::GetBufferSize
        | RemoteHostMethodId::GetWindowSize
        | RemoteHostMethodId::GetWindowTitle
        | RemoteHostMethodId::GetMaxWindowSize
        | RemoteHostMethodId::GetMaxPhysicalWindowSize
        | RemoteHostMethodId::GetKeyAvailable
        | RemoteHostMethodId::ReadKey
        | RemoteHostMethodId::GetBufferContents
        | RemoteHostMethodId::GetIsRunspacePushed
        | RemoteHostMethodId::GetRunspace
        | RemoteHostMethodId::PromptForChoiceMultipleSelection => true,
        _ => false,
    }
}

/// Response gating per the protocol: only methods that return a value send a response.
pub fn should_send_host_response(id: RemoteHostMethodId) -> (r: bool)
    ensures
        r == returns_value(id),
{
    match id {
        RemoteHostMethodId::GetName
        | RemoteHostMethodId::GetVersion
        | RemoteHostMethodId::GetInstanceId
        | RemoteHostMethodId::GetCurrentCulture
        | RemoteHostMethodId::GetCurrentUICulture
        | RemoteHostMethodId::ReadLine
        | RemoteHostMethodId::ReadLineAsSecureString
        | RemoteHostMethodId::Prompt
        | RemoteHostMethodId::PromptForCredential1
        | RemoteHostMethodId::PromptForCredential2
        | RemoteHostMethodId::PromptForChoice
        | RemoteHostMethodId::GetForegroundColor
        | RemoteHostMethodId::GetBackgroundColor
        | RemoteHostMethodId::GetCursorPosition
        | RemoteHostMethodId::GetWindowPosition
        | RemoteHostMethodId::GetCursorSize
        | RemoteHostMethodId::GetBufferSize
        | RemoteHostMethodId::GetWindowSize
        | RemoteHostMethodId::GetWindowTitle
        | RemoteHostMethodId::GetMaxWindowSize
        | RemoteHostMethodId::GetMaxPhysicalWindowSize
        | RemoteHostMethodId::GetKeyAvailable
        | RemoteHostMethodId::ReadKey
        | RemoteHostMethodId::GetBufferContents
        | RemoteHostMethodId::GetIsRunspacePushed
        | RemoteHostMethodId::GetRunspace
        | RemoteHostMethodId::PromptForChoiceMultipleSelection => true,
        _ => false,
    }
}

/// The protocol ids (MS-PSRP 2.2.3.17) of the host methods that return a value: the host
/// getters 1 to 5, ReadLine and ReadLineAsSecureString (11, 12), the prompts 23 to 26, the
/// raw UI getters (27, 29, 31, 33, 35, 37, 39, 41, 43 to 46, 50) and 54 to 56. Every other
/// method (the setters, the writes, the notifications) returns nothing.
pub open spec fn value_returning_method_id(n: i32) -> bool {
    ||| 1 <= n <= 5
    ||| n == 11 || n == 12
    ||| 23 <= n <= 27
    ||| n == 29 || n == 31 || n == 33 || n == 35 || n == 37 || n == 39 || n == 41
    ||| 43 <= n <= 46
    ||| n == 50
    ||| 54 <= n <= 56
}

/// A host call is answered exactly when its method returns a value: `should_send_host_response`
/// holds of a method exactly when its protocol id is one of the value-returning ids.
pub proof fn lemma_answered_exactly_when_value_returned(id: RemoteHostMethodId)
    ensures
        returns_value(id) <==> value_returning_method_id(id.spec_value()),
{
}

} // verus!
