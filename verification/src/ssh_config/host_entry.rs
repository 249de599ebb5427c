use crate::text::{eq_ignore_case, str_eq_ignore_case};
use vstd::prelude::*;

verus! {

/// The key of one configuration entry: a keyword of the OpenSSH client
/// configuration, or any other key, kept as it was written.
#[derive(Debug)]
pub enum EntryType {
    Unknown(String),
    Host,
    Match,
    AddKeysToAgent,
    AddressFamily,
    BatchMode,
    BindAddress,
    BindInterface,
    CanonicalDomains,
    CanonicalizeFallbackLocal,
    CanonicalizeHostname,
    CanonicalizeMaxDots,
    CanonicalizePermittedCNAMEs,
    CASignatureAlgorithms,
    CertificateFile,
    CheckHostIP,
    Ciphers,
    ClearAllForwardings,
    Compression,
    ConnectionAttempts,
    ConnectTimeout,
    ControlMaster,
    ControlPath,
    ControlPersist,
    DynamicForward,
    EnableEscapeCommandline,
    EnableSSHKeysign,
    EscapeChar,
    ExitOnForwardFailure,
    FingerprintHash,
    ForkAfterAuthentication,
    ForwardAgent,
    ForwardX11,
    ForwardX11Timeout,
    ForwardX11Trusted,
    GatewayPorts,
    GlobalKnownHostsFile,
    GSSAPIAuthentication,
    GSSAPIDelegateCredentials,
    HashKnownHosts,
    HostbasedAcceptedAlgorithms,
    HostbasedAuthentication,
    HostKeyAlgorithms,
    HostKeyAlias,
    Hostname,
    IdentitiesOnly,
    IdentityAgent,
    IdentityFile,
    IgnoreUnknown,
    Include,
    IPQoS,
    KbdInteractiveAuthentication,
    KbdInteractiveDevices,
    KexAlgorithms,
    KnownHostsCommand,
    LocalCommand,
    LocalForward,
    LogLevel,
    LogVerbose,
    MACs,
    NoHostAuthenticationForLocalhost,
    NumberOfPasswordPrompts,
    PasswordAuthentication,
    PermitLocalCommand,
    PermitRemoteOpen,
    PKCS11Provider,
    Port,
    PreferredAuthentications,
    ProxyCommand,
    ProxyJump,
    ProxyUseFdpass,
    PubkeyAcceptedAlgorithms,
    PubkeyAuthentication,
    RekeyLimit,
    RemoteCommand,
    RemoteForward,
    RequestTTY,
    RequiredRSASize,
    RevokedHostKeys,
    SecurityKeyProvider,
    SendEnv,
    ServerAliveCountMax,
    ServerAliveInterval,
    SessionType,
    SetEnv,
    StdinNull,
    StreamLocalBindMask,
    StreamLocalBindUnlink,
    StrictHostKeyChecking,
    SyslogFacility,
    TCPKeepAlive,
    Tag,
    Tunnel,
    TunnelDevice,
    UpdateHostKeys,
    User,
    UserKnownHostsFile,
    VerifyHostKeyDNS,
    VisualHostKey,
    XAuthLocation,
}

/// How many keywords [`EntryType`] knows.
pub const KEYWORD_COUNT: usize = 99;

/// What an [`EntryType`] stands for in contracts.
///
/// `keyword` is the keyword's number, counted from one in the order in which
/// the keywords are declared, and zero for a key that is no keyword. `text` is
/// the text of such a key, and empty for a keyword.
pub struct EntryKey {
    pub keyword: nat,
    pub text: Seq<char>,
}

/// The name of the keyword with the number `number`, as the manual spells it.
pub open spec fn keyword_name(number: usize) -> Seq<char> {
    match number {
        1 => "Host"@,
        2 => "Match"@,
        3 => "AddKeysToAgent"@,
        4 => "AddressFamily"@,
        5 => "BatchMode"@,
        6 => "BindAddress"@,
        7 => "BindInterface"@,
        8 => "CanonicalDomains"@,
        9 => "CanonicalizeFallbackLocal"@,
        10 => "CanonicalizeHostname"@,
        11 => "CanonicalizeMaxDots"@,
        12 => "CanonicalizePermittedCNAMEs"@,
        13 => "CASignatureAlgorithms"@,
        14 => "CertificateFile"@,
        15 => "CheckHostIP"@,
        16 => "Ciphers"@,
        17 => "ClearAllForwardings"@,
        18 => "Compression"@,
        19 => "ConnectionAttempts"@,
        20 => "ConnectTimeout"@,
        21 => "ControlMaster"@,
        22 => "ControlPath"@,
        23 => "ControlPersist"@,
        24 => "DynamicForward"@,
        25 => "EnableEscapeCommandline"@,
        26 => "EnableSSHKeysign"@,
        27 => "EscapeChar"@,
        28 => "ExitOnForwardFailure"@,
        29 => "FingerprintHash"@,
        30 => "ForkAfterAuthentication"@,
        31 => "ForwardAgent"@,
        32 => "ForwardX11"@,
        33 => "ForwardX11Timeout"@,
        34 => "ForwardX11Trusted"@,
        35 => "GatewayPorts"@,
        36 => "GlobalKnownHostsFile"@,
        37 => "GSSAPIAuthentication"@,
        38 => "GSSAPIDelegateCredentials"@,
        39 => "HashKnownHosts"@,
        40 => "HostbasedAcceptedAlgorithms"@,
        41 => "HostbasedAuthentication"@,
        42 => "HostKeyAlgorithms"@,
        43 => "HostKeyAlias"@,
        44 => "Hostname"@,
        45 => "IdentitiesOnly"@,
        46 => "IdentityAgent"@,
        47 => "IdentityFile"@,
        48 => "IgnoreUnknown"@,
        49 => "Include"@,
        50 => "IPQoS"@,
        51 => "KbdInteractiveAuthentication"@,
        52 => "KbdInteractiveDevices"@,
        53 => "KexAlgorithms"@,
        54 => "KnownHostsCommand"@,
        55 => "LocalCommand"@,
        56 => "LocalForward"@,
        57 => "LogLevel"@,
        58 => "LogVerbose"@,
        59 => "MACs"@,
        60 => "NoHostAuthenticationForLocalhost"@,
        61 => "NumberOfPasswordPrompts"@,
        62 => "PasswordAuthentication"@,
        63 => "PermitLocalCommand"@,
        64 => "PermitRemoteOpen"@,
        65 => "PKCS11Provider"@,
        66 => "Port"@,
        67 => "PreferredAuthentications"@,
        68 => "ProxyCommand"@,
        69 => "ProxyJump"@,
        70 => "ProxyUseFdpass"@,
        71 => "PubkeyAcceptedAlgorithms"@,
        72 => "PubkeyAuthentication"@,
        73 => "RekeyLimit"@,
        74 => "RemoteCommand"@,
        75 => "RemoteForward"@,
        76 => "RequestTTY"@,
        77 => "RequiredRSASize"@,
        78 => "RevokedHostKeys"@,
        79 => "SecurityKeyProvider"@,
        80 => "SendEnv"@,
        81 => "ServerAliveCountMax"@,
        82 => "ServerAliveInterval"@,
        83 => "SessionType"@,
        84 => "SetEnv"@,
        85 => "StdinNull"@,
        86 => "StreamLocalBindMask"@,
        87 => "StreamLocalBindUnlink"@,
        88 => "StrictHostKeyChecking"@,
        89 => "SyslogFacility"@,
        90 => "TCPKeepAlive"@,
        91 => "Tag"@,
        92 => "Tunnel"@,
        93 => "TunnelDevice"@,
        94 => "UpdateHostKeys"@,
        95 => "User"@,
        96 => "UserKnownHostsFile"@,
        97 => "VerifyHostKeyDNS"@,
        98 => "VisualHostKey"@,
        99 => "XAuthLocation"@,
        _ => Seq::empty(),
    }
}

/// The least keyword number from `from` on whose name is `name`, letter case
/// aside; zero if there is none.
pub open spec fn find_keyword(name: Seq<char>, from: usize) -> usize
    decreases KEYWORD_COUNT + 1 - from,
{
    if from < 1 || from > KEYWORD_COUNT {
        0
    } else if eq_ignore_case(keyword_name(from), name) {
        from
    } else {
        find_keyword(name, (from + 1) as usize)
    }
}

/// The key that the text `name` denotes: the first keyword of that name, letter
/// case aside, or else an unknown key holding `name` unchanged.
pub open spec fn classify(name: Seq<char>) -> EntryKey {
    let number = find_keyword(name, 1);
    if number == 0 {
        EntryKey { keyword: 0, text: name }
    } else {
        EntryKey { keyword: number as nat, text: Seq::empty() }
    }
}

impl View for EntryType {
    type V = EntryKey;

    open spec fn view(&self) -> EntryKey {
        match self {
            EntryType::Unknown(text) => EntryKey { keyword: 0, text: text@ },
            _ => EntryKey { keyword: self.number() as nat, text: Seq::empty() },
        }
    }
}

impl EntryType {
    /// The keyword's number; zero for an unknown key.
    pub open spec fn number(&self) -> usize {
        match self {
            EntryType::Unknown(_) => 0,
            EntryType::Host => 1,
            EntryType::Match => 2,
            EntryType::AddKeysToAgent => 3,
            EntryType::AddressFamily => 4,
            EntryType::BatchMode => 5,
            EntryType::BindAddress => 6,
            EntryType::BindInterface => 7,
            EntryType::CanonicalDomains => 8,
            EntryType::CanonicalizeFallbackLocal => 9,
            EntryType::CanonicalizeHostname => 10,
            EntryType::CanonicalizeMaxDots => 11,
            EntryType::CanonicalizePermittedCNAMEs => 12,
            EntryType::CASignatureAlgorithms => 13,
            EntryType::CertificateFile => 14,
            EntryType::CheckHostIP => 15,
            EntryType::Ciphers => 16,
            EntryType::ClearAllForwardings => 17,
            EntryType::Compression => 18,
            EntryType::ConnectionAttempts => 19,
            EntryType::ConnectTimeout => 20,
            EntryType::ControlMaster => 21,
            EntryType::ControlPath => 22,
            EntryType::ControlPersist => 23,
            EntryType::DynamicForward => 24,
            EntryType::EnableEscapeCommandline => 25,
            EntryType::EnableSSHKeysign => 26,
            EntryType::EscapeChar => 27,
            EntryType::ExitOnForwardFailure => 28,
            EntryType::FingerprintHash => 29,
            EntryType::ForkAfterAuthentication => 30,
            EntryType::ForwardAgent => 31,
            EntryType::ForwardX11 => 32,
            EntryType::ForwardX11Timeout => 33,
            EntryType::ForwardX11Trusted => 34,
            EntryType::GatewayPorts => 35,
            EntryType::GlobalKnownHostsFile => 36,
            EntryType::GSSAPIAuthentication => 37,
            EntryType::GSSAPIDelegateCredentials => 38,
            EntryType::HashKnownHosts => 39,
            EntryType::HostbasedAcceptedAlgorithms => 40,
            EntryType::HostbasedAuthentication => 41,
            EntryType::HostKeyAlgorithms => 42,
            EntryType::HostKeyAlias => 43,
            EntryType::Hostname => 44,
            EntryType::IdentitiesOnly => 45,
            EntryType::IdentityAgent => 46,
            EntryType::IdentityFile => 47,
            EntryType::IgnoreUnknown => 48,
            EntryType::Include => 49,
            EntryType::IPQoS => 50,
            EntryType::KbdInteractiveAuthentication => 51,
            EntryType::KbdInteractiveDevices => 52,
            EntryType::KexAlgorithms => 53,
            EntryType::KnownHostsCommand => 54,
            EntryType::LocalCommand => 55,
            EntryType::LocalForward => 56,
            EntryType::LogLevel => 57,
            EntryType::LogVerbose => 58,
            EntryType::MACs => 59,
            EntryType::NoHostAuthenticationForLocalhost => 60,
            EntryType::NumberOfPasswordPrompts => 61,
            EntryType::PasswordAuthentication => 62,
            EntryType::PermitLocalCommand => 63,
            EntryType::PermitRemoteOpen => 64,
            EntryType::PKCS11Provider => 65,
            EntryType::Port => 66,
            EntryType::PreferredAuthentications => 67,
            EntryType::ProxyCommand => 68,
            EntryType::ProxyJump => 69,
            EntryType::ProxyUseFdpass => 70,
            EntryType::PubkeyAcceptedAlgorithms => 71,
            EntryType::PubkeyAuthentication => 72,
            EntryType::RekeyLimit => 73,
            EntryType::RemoteCommand => 74,
            EntryType::RemoteForward => 75,
            EntryType::RequestTTY => 76,
            EntryType::RequiredRSASize => 77,
            EntryType::RevokedHostKeys => 78,
            EntryType::SecurityKeyProvider => 79,
            EntryType::SendEnv => 80,
            EntryType::ServerAliveCountMax => 81,
            EntryType::ServerAliveInterval => 82,
            EntryType::SessionType => 83,
            EntryType::SetEnv => 84,
            EntryType::StdinNull => 85,
            EntryType::StreamLocalBindMask => 86,
            EntryType::StreamLocalBindUnlink => 87,
            EntryType::StrictHostKeyChecking => 88,
            EntryType::SyslogFacility => 89,
            EntryType::TCPKeepAlive => 90,
            EntryType::Tag => 91,
            EntryType::Tunnel => 92,
            EntryType::TunnelDevice => 93,
            EntryType::UpdateHostKeys => 94,
            EntryType::User => 95,
            EntryType::UserKnownHostsFile => 96,
            EntryType::VerifyHostKeyDNS => 97,
            EntryType::VisualHostKey => 98,
            EntryType::XAuthLocation => 99,
        }
    }

    /// Computes [`EntryType::number`].
    pub fn ordinal(&self) -> (number: usize)
        ensures
            number == self.number(),
            number <= KEYWORD_COUNT,
    {
        match self {
            EntryType::Unknown(_) => 0,
            EntryType::Host => 1,
            EntryType::Match => 2,
            EntryType::AddKeysToAgent => 3,
            EntryType::AddressFamily => 4,
            EntryType::BatchMode => 5,
            EntryType::BindAddress => 6,
            EntryType::BindInterface => 7,
            EntryType::CanonicalDomains => 8,
            EntryType::CanonicalizeFallbackLocal => 9,
            EntryType::CanonicalizeHostname => 10,
            EntryType::CanonicalizeMaxDots => 11,
            EntryType::CanonicalizePermittedCNAMEs => 12,
            EntryType::CASignatureAlgorithms => 13,
            EntryType::CertificateFile => 14,
            EntryType::CheckHostIP => 15,
            EntryType::Ciphers => 16,
            EntryType::ClearAllForwardings => 17,
            EntryType::Compression => 18,
            EntryType::ConnectionAttempts => 19,
            EntryType::ConnectTimeout => 20,
            EntryType::ControlMaster => 21,
            EntryType::ControlPath => 22,
            EntryType::ControlPersist => 23,
            EntryType::DynamicForward => 24,
            EntryType::EnableEscapeCommandline => 25,
            EntryType::EnableSSHKeysign => 26,
            EntryType::EscapeChar => 27,
            EntryType::ExitOnForwardFailure => 28,
            EntryType::FingerprintHash => 29,
            EntryType::ForkAfterAuthentication => 30,
            EntryType::ForwardAgent => 31,
            EntryType::ForwardX11 => 32,
            EntryType::ForwardX11Timeout => 33,
            EntryType::ForwardX11Trusted => 34,
            EntryType::GatewayPorts => 35,
            EntryType::GlobalKnownHostsFile => 36,
            EntryType::GSSAPIAuthentication => 37,
            EntryType::GSSAPIDelegateCredentials => 38,
            EntryType::HashKnownHosts => 39,
            EntryType::HostbasedAcceptedAlgorithms => 40,
            EntryType::HostbasedAuthentication => 41,
            EntryType::HostKeyAlgorithms => 42,
            EntryType::HostKeyAlias => 43,
            EntryType::Hostname => 44,
            EntryType::IdentitiesOnly => 45,
            EntryType::IdentityAgent => 46,
            EntryType::IdentityFile => 47,
            EntryType::IgnoreUnknown => 48,
            EntryType::Include => 49,
            EntryType::IPQoS => 50,
            EntryType::KbdInteractiveAuthentication => 51,
            EntryType::KbdInteractiveDevices => 52,
            EntryType::KexAlgorithms => 53,
            EntryType::KnownHostsCommand => 54,
            EntryType::LocalCommand => 55,
            EntryType::LocalForward => 56,
            EntryType::LogLevel => 57,
            EntryType::LogVerbose => 58,
            EntryType::MACs => 59,
            EntryType::NoHostAuthenticationForLocalhost => 60,
            EntryType::NumberOfPasswordPrompts => 61,
            EntryType::PasswordAuthentication => 62,
            EntryType::PermitLocalCommand => 63,
            EntryType::PermitRemoteOpen => 64,
            EntryType::PKCS11Provider => 65,
            EntryType::Port => 66,
            EntryType::PreferredAuthentications => 67,
            EntryType::ProxyCommand => 68,
            EntryType::ProxyJump => 69,
            EntryType::ProxyUseFdpass => 70,
            EntryType::PubkeyAcceptedAlgorithms => 71,
            EntryType::PubkeyAuthentication => 72,
            EntryType::RekeyLimit => 73,
            EntryType::RemoteCommand => 74,
            EntryType::RemoteForward => 75,
            EntryType::RequestTTY => 76,
            EntryType::RequiredRSASize => 77,
            EntryType::RevokedHostKeys => 78,
            EntryType::SecurityKeyProvider => 79,
            EntryType::SendEnv => 80,
            EntryType::ServerAliveCountMax => 81,
            EntryType::ServerAliveInterval => 82,
            EntryType::SessionType => 83,
            EntryType::SetEnv => 84,
            EntryType::StdinNull => 85,
            EntryType::StreamLocalBindMask => 86,
            EntryType::StreamLocalBindUnlink => 87,
            EntryType::StrictHostKeyChecking => 88,
            EntryType::SyslogFacility => 89,
            EntryType::TCPKeepAlive => 90,
            EntryType::Tag => 91,
            EntryType::Tunnel => 92,
            EntryType::TunnelDevice => 93,
            EntryType::UpdateHostKeys => 94,
            EntryType::User => 95,
            EntryType::UserKnownHostsFile => 96,
            EntryType::VerifyHostKeyDNS => 97,
            EntryType::VisualHostKey => 98,
            EntryType::XAuthLocation => 99,
        }
    }

    /// The keyword with the given number.
    pub fn keyword(number: usize) -> (key: EntryType)
        requires
            1 <= number <= KEYWORD_COUNT,
        ensures
            key.number() == number,
            key@ == (EntryKey { keyword: number as nat, text: Seq::empty() }),
    {
        match number {
            1 => EntryType::Host,
            2 => EntryType::Match,
            3 => EntryType::AddKeysToAgent,
            4 => EntryType::AddressFamily,
            5 => EntryType::BatchMode,
            6 => EntryType::BindAddress,
            7 => EntryType::BindInterface,
            8 => EntryType::CanonicalDomains,
            9 => EntryType::CanonicalizeFallbackLocal,
            10 => EntryType::CanonicalizeHostname,
            11 => EntryType::CanonicalizeMaxDots,
            12 => EntryType::CanonicalizePermittedCNAMEs,
            13 => EntryType::CASignatureAlgorithms,
            14 => EntryType::CertificateFile,
            15 => EntryType::CheckHostIP,
            16 => EntryType::Ciphers,
            17 => EntryType::ClearAllForwardings,
            18 => EntryType::Compression,
            19 => EntryType::ConnectionAttempts,
            20 => EntryType::ConnectTimeout,
            21 => EntryType::ControlMaster,
            22 => EntryType::ControlPath,
            23 => EntryType::ControlPersist,
            24 => EntryType::DynamicForward,
            25 => EntryType::EnableEscapeCommandline,
            26 => EntryType::EnableSSHKeysign,
            27 => EntryType::EscapeChar,
            28 => EntryType::ExitOnForwardFailure,
            29 => EntryType::FingerprintHash,
            30 => EntryType::ForkAfterAuthentication,
            31 => EntryType::ForwardAgent,
            32 => EntryType::ForwardX11,
            33 => EntryType::ForwardX11Timeout,
            34 => EntryType::ForwardX11Trusted,
            35 => EntryType::GatewayPorts,
            36 => EntryType::GlobalKnownHostsFile,
            37 => EntryType::GSSAPIAuthentication,
            38 => EntryType::GSSAPIDelegateCredentials,
            39 => EntryType::HashKnownHosts,
            40 => EntryType::HostbasedAcceptedAlgorithms,
            41 => EntryType::HostbasedAuthentication,
            42 => EntryType::HostKeyAlgorithms,
            43 => EntryType::HostKeyAlias,
            44 => EntryType::Hostname,
            45 => EntryType::IdentitiesOnly,
            46 => EntryType::IdentityAgent,
            47 => EntryType::IdentityFile,
            48 => EntryType::IgnoreUnknown,
            49 => EntryType::Include,
            50 => EntryType::IPQoS,
            51 => EntryType::KbdInteractiveAuthentication,
            52 => EntryType::KbdInteractiveDevices,
            53 => EntryType::KexAlgorithms,
            54 => EntryType::KnownHostsCommand,
            55 => EntryType::LocalCommand,
            56 => EntryType::LocalForward,
            57 => EntryType::LogLevel,
            58 => EntryType::LogVerbose,
            59 => EntryType::MACs,
            60 => EntryType::NoHostAuthenticationForLocalhost,
            61 => EntryType::NumberOfPasswordPrompts,
            62 => EntryType::PasswordAuthentication,
            63 => EntryType::PermitLocalCommand,
            64 => EntryType::PermitRemoteOpen,
            65 => EntryType::PKCS11Provider,
            66 => EntryType::Port,
            67 => EntryType::PreferredAuthentications,
            68 => EntryType::ProxyCommand,
            69 => EntryType::ProxyJump,
            70 => EntryType::ProxyUseFdpass,
            71 => EntryType::PubkeyAcceptedAlgorithms,
            72 => EntryType::PubkeyAuthentication,
            73 => EntryType::RekeyLimit,
            74 => EntryType::RemoteCommand,
            75 => EntryType::RemoteForward,
            76 => EntryType::RequestTTY,
            77 => EntryType::RequiredRSASize,
            78 => EntryType::RevokedHostKeys,
            79 => EntryType::SecurityKeyProvider,
            80 => EntryType::SendEnv,
            81 => EntryType::ServerAliveCountMax,
            82 => EntryType::ServerAliveInterval,
            83 => EntryType::SessionType,
            84 => EntryType::SetEnv,
            85 => EntryType::StdinNull,
            86 => EntryType::StreamLocalBindMask,
            87 => EntryType::StreamLocalBindUnlink,
            88 => EntryType::StrictHostKeyChecking,
            89 => EntryType::SyslogFacility,
            90 => EntryType::TCPKeepAlive,
            91 => EntryType::Tag,
            92 => EntryType::Tunnel,
            93 => EntryType::TunnelDevice,
            94 => EntryType::UpdateHostKeys,
            95 => EntryType::User,
            96 => EntryType::UserKnownHostsFile,
            97 => EntryType::VerifyHostKeyDNS,
            98 => EntryType::VisualHostKey,
            _ => EntryType::XAuthLocation,
        }
    }

    /// The name of the keyword with the given number.
    pub fn keyword_str(number: usize) -> (name: &'static str)
        requires
            1 <= number <= KEYWORD_COUNT,
        ensures
            name@ == keyword_name(number),
    {
        match number {
            1 => "Host",
            2 => "Match",
            3 => "AddKeysToAgent",
            4 => "AddressFamily",
            5 => "BatchMode",
            6 => "BindAddress",
            7 => "BindInterface",
            8 => "CanonicalDomains",
            9 => "CanonicalizeFallbackLocal",
            10 => "CanonicalizeHostname",
            11 => "CanonicalizeMaxDots",
            12 => "CanonicalizePermittedCNAMEs",
            13 => "CASignatureAlgorithms",
            14 => "CertificateFile",
            15 => "CheckHostIP",
            16 => "Ciphers",
            17 => "ClearAllForwardings",
            18 => "Compression",
            19 => "ConnectionAttempts",
            20 => "ConnectTimeout",
            21 => "ControlMaster",
            22 => "ControlPath",
            23 => "ControlPersist",
            24 => "DynamicForward",
            25 => "EnableEscapeCommandline",
            26 => "EnableSSHKeysign",
            27 => "EscapeChar",
            28 => "ExitOnForwardFailure",
            29 => "FingerprintHash",
            30 => "ForkAfterAuthentication",
            31 => "ForwardAgent",
            32 => "ForwardX11",
            33 => "ForwardX11Timeout",
            34 => "ForwardX11Trusted",
            35 => "GatewayPorts",
            36 => "GlobalKnownHostsFile",
            37 => "GSSAPIAuthentication",
            38 => "GSSAPIDelegateCredentials",
            39 => "HashKnownHosts",
            40 => "HostbasedAcceptedAlgorithms",
            41 => "HostbasedAuthentication",
            42 => "HostKeyAlgorithms",
            43 => "HostKeyAlias",
            44 => "Hostname",
            45 => "IdentitiesOnly",
            46 => "IdentityAgent",
            47 => "IdentityFile",
            48 => "IgnoreUnknown",
            49 => "Include",
            50 => "IPQoS",
            51 => "KbdInteractiveAuthentication",
            52 => "KbdInteractiveDevices",
            53 => "KexAlgorithms",
            54 => "KnownHostsCommand",
            55 => "LocalCommand",
            56 => "LocalForward",
            57 => "LogLevel",
            58 => "LogVerbose",
            59 => "MACs",
            60 => "NoHostAuthenticationForLocalhost",
            61 => "NumberOfPasswordPrompts",
            62 => "PasswordAuthentication",
            63 => "PermitLocalCommand",
            64 => "PermitRemoteOpen",
            65 => "PKCS11Provider",
            66 => "Port",
            67 => "PreferredAuthentications",
            68 => "ProxyCommand",
            69 => "ProxyJump",
            70 => "ProxyUseFdpass",
            71 => "PubkeyAcceptedAlgorithms",
            72 => "PubkeyAuthentication",
            73 => "RekeyLimit",
            74 => "RemoteCommand",
            75 => "RemoteForward",
            76 => "RequestTTY",
            77 => "RequiredRSASize",
            78 => "RevokedHostKeys",
            79 => "SecurityKeyProvider",
            80 => "SendEnv",
            81 => "ServerAliveCountMax",
            82 => "ServerAliveInterval",
            83 => "SessionType",
            84 => "SetEnv",
            85 => "StdinNull",
            86 => "StreamLocalBindMask",
            87 => "StreamLocalBindUnlink",
            88 => "StrictHostKeyChecking",
            89 => "SyslogFacility",
            90 => "TCPKeepAlive",
            91 => "Tag",
            92 => "Tunnel",
            93 => "TunnelDevice",
            94 => "UpdateHostKeys",
            95 => "User",
            96 => "UserKnownHostsFile",
            97 => "VerifyHostKeyDNS",
            98 => "VisualHostKey",
            _ => "XAuthLocation",
        }
    }

    /// Reads a key: the keyword that `name` spells, in any letter case, or
    /// an unknown key that keeps `name` as it is.
    pub fn from_name(name: &str) -> (key: EntryType)
        ensures
            key@ == classify(name@),
    {
        let mut number: usize = 1;
        while number <= KEYWORD_COUNT
            invariant
                1 <= number <= KEYWORD_COUNT + 1,
                find_keyword(name@, 1) == find_keyword(name@, number),
            decreases KEYWORD_COUNT + 1 - number,
        {
            if str_eq_ignore_case(EntryType::keyword_str(number), name) {
                return EntryType::keyword(number);
            }
            number += 1;
        }
        EntryType::Unknown(name.to_owned())
    }

    /// Whether two keys are the same key.
    pub fn same_key(&self, other: &EntryType) -> (same: bool)
        ensures
            same == (self@ == other@),
    {
        match self {
            EntryType::Unknown(text) => match other {
                EntryType::Unknown(other_text) => *text == *other_text,
                _ => false,
            },
            _ => self.ordinal() == other.ordinal(),
        }
    }
}

impl Clone for EntryType {
    fn clone(&self) -> (copy: EntryType)
        ensures
            copy@ == self@,
    {
        match self {
            EntryType::Unknown(text) => EntryType::Unknown(text.clone()),
            _ => EntryType::keyword(self.ordinal()),
        }
    }
}

} // verus!
