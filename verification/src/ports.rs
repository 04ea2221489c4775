//! Classification of TCP port numbers into well-known services.

use vstd::prelude::*;

verus! {

/// The service family a port number is usually associated with.
#[derive(Debug, Clone, Copy, PartialEq, Eq, Structural)]
pub enum PortType {
    FTP,
    SSH,
    Telnet,
    SMTP,
    POP3,
    IMAP,
    HTTPS,
    HTTP,
    DNS,
    LDAP,
    MYSQL,
    RDP,
    PostgreSQL,
    SMB,
    Other,
}

/// A port number together with a human readable service name and family.
#[derive(Debug)]
pub struct Port {
    pub num: u16,
    pub name: String,
    pub port_type: PortType,
}

/// The service name that `Port::from` gives a port number.
pub open spec fn spec_port_name(port: u16) -> Seq<char> {
    if port == 20 {
        "FTP"@
    } else if port == 21 {
        "Secure FTP"@
    } else if port == 22 {
        "SSH"@
    } else if port == 23 {
        "Telnet"@
    } else if port == 25 {
        "SMTP"@
    } else if port == 53 {
        "DNS"@
    } else if port == 110 {
        "POP3"@
    } else if port == 139 || port == 445 {
        "SMB"@
    } else if port == 143 {
        "IMAP"@
    } else if port == 389 {
        "LDAP"@
    } else if port == 443 {
        "HTTPS"@
    } else if port == 3306 {
        "MySQL"@
    } else if port == 3389 {
        "RDP"@
    } else if port == 5432 {
        "PostgreSQL"@
    } else if port == 80 || port == 8080 || port == 8443 || port == 8880 {
        "HTTP"@
    } else {
        "Other"@
    }
}

/// The service family that `Port::from` gives a port number.
pub open spec fn spec_port_type(port: u16) -> PortType {
    if port == 20 || port == 21 {
        PortType::FTP
    } else if port == 22 {
        PortType::SSH
    } else if port == 23 {
        PortType::Telnet
    } else if port == 25 {
        PortType::SMTP
    } else if port == 53 {
        PortType::DNS
    } else if port == 110 {
        PortType::POP3
    } else if port == 139 || port == 445 {
        PortType::SMB
    } else if port == 143 {
        PortType::IMAP
    } else if port == 389 {
        PortType::LDAP
    } else if port == 443 {
        PortType::HTTPS
    } else if port == 3306 {
        PortType::MYSQL
    } else if port == 3389 {
        PortType::RDP
    } else if port == 5432 {
        PortType::PostgreSQL
    } else if port == 80 || port == 8080 || port == 8443 || port == 8880 {
        PortType::HTTP
    } else {
        PortType::Other
    }
}

/// `port` is the classification of the number `num`.
pub open spec fn classifies(port: Port, num: u16) -> bool {
    &&& port.num == num
    &&& port.name@ == spec_port_name(num)
    &&& port.port_type == spec_port_type(num)
}

/// Which ports get which service: each family belongs to exactly the
/// listed well-known ports (MySQL to 3306 alone, HTTP to 80, 8080, 8443
/// and 8880, ...), every other port is "Other", and the name follows the
/// family, the two FTP ports being told apart.
pub proof fn lemma_port_classification(p: u16)
    ensures
        (spec_port_type(p) == PortType::FTP) <==> (p == 20 || p == 21),
        (spec_port_type(p) == PortType::SSH) <==> p == 22,
        (spec_port_type(p) == PortType::Telnet) <==> p == 23,
        (spec_port_type(p) == PortType::SMTP) <==> p == 25,
        (spec_port_type(p) == PortType::DNS) <==> p == 53,
        (spec_port_type(p) == PortType::POP3) <==> p == 110,
        (spec_port_type(p) == PortType::SMB) <==> (p == 139 || p == 445),
        (spec_port_type(p) == PortType::IMAP) <==> p == 143,
        (spec_port_type(p) == PortType::LDAP) <==> p == 389,
        (spec_port_type(p) == PortType::HTTPS) <==> p == 443,
        (spec_port_type(p) == PortType::MYSQL) <==> p == 3306,
        (spec_port_type(p) == PortType::RDP) <==> p == 3389,
        (spec_port_type(p) == PortType::PostgreSQL) <==> p == 5432,
        (spec_port_type(p) == PortType::HTTP) <==> (p == 80 || p == 8080 || p == 8443 || p
            == 8880),
        (spec_port_type(p) == PortType::Other) <==> !(p == 20 || p == 21 || p == 22 || p == 23
            || p == 25 || p == 53 || p == 80 || p == 110 || p == 139 || p == 143 || p == 389
            || p == 443 || p == 445 || p == 3306 || p == 3389 || p == 5432 || p == 8080 || p
            == 8443 || p == 8880),
        spec_port_name(p) == match spec_port_type(p) {
            PortType::FTP => if p == 20 {
                "FTP"@
            } else {
                "Secure FTP"@
            },
            PortType::SSH => "SSH"@,
            PortType::Telnet => "Telnet"@,
            PortType::SMTP => "SMTP"@,
            PortType::POP3 => "POP3"@,
            PortType::IMAP => "IMAP"@,
            PortType::HTTPS => "HTTPS"@,
            PortType::HTTP => "HTTP"@,
            PortType::DNS => "DNS"@,
            PortType::LDAP => "LDAP"@,
            PortType::MYSQL => "MySQL"@,
            PortType::RDP => "RDP"@,
            PortType::PostgreSQL => "PostgreSQL"@,
            PortType::SMB => "SMB"@,
            PortType::Other => "Other"@,
        },
{
}

impl Port {
    /// Builds a port from its parts.
    pub fn new(num: u16, name: &str, port_type: PortType) -> (port: Self)
        ensures
            port.num == num,
            port.name@ == name@,
            port.port_type == port_type,
    {
        Port { num, name: String::from_str(name), port_type }
    }

    /// Classifies a port number by the service usually listening on it.
    pub fn from(port: u16) -> (result: Self)
        ensures
            classifies(result, port),
    {
        match port {
            20 => Self::new(port, "FTP", PortType::FTP),
            21 => Self::new(port, "Secure FTP", PortType::FTP),
            22 => Self::new(port, "SSH", PortType::SSH),
            23 => Self::new(port, "Telnet", PortType::Telnet),
            25 => Self::new(port, "SMTP", PortType::SMTP),
            53 => Self::new(port, "DNS", PortType::DNS),
            110 => Self::new(port, "POP3", PortType::POP3),
            139 | 445 => Self::new(port, "SMB", PortType::SMB),
            143 => Self::new(port, "IMAP", PortType::IMAP),
            389 => Self::new(port, "LDAP", PortType::LDAP),
            443 => Self::new(port, "HTTPS", PortType::HTTPS),
            3306 => Self::new(port, "MySQL", PortType::MYSQL),
            3389 => Self::new(port, "RDP", PortType::RDP),
            5432 => Self::new(port, "PostgreSQL", PortType::PostgreSQL),
            8080 => Self::new(port, "HTTP", PortType::HTTP),
            8880 => Self::new(port, "HTTP", PortType::HTTP),
            8443 => Self::new(port, "HTTP", PortType::HTTP),
            80 => Self::new(port, "HTTP", PortType::HTTP),
            _ => Self::new(port, "Other", PortType::Other),
        }
    }
}

} // verus!
