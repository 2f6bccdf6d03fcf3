//! The Win32 constants that decisions rest on. The constants here give the contracts their values;
//! the functions take the same constants out of `windows_sys`.
use vstd::prelude::*;

verus! {

/// Pages that are backed by storage.
pub const MEM_COMMIT: u32 = 0x1000;

/// Address space that is set aside.
pub const MEM_RESERVE: u32 = 0x2000;

/// Gives a whole allocation back.
pub const MEM_RELEASE: u32 = 0x8000;

/// No access at all.
pub const PAGE_NOACCESS: u32 = 0x01;

/// Read access.
pub const PAGE_READONLY: u32 = 0x02;

/// Read and write access.
pub const PAGE_READWRITE: u32 = 0x04;

/// Read access, writes go to a copy.
pub const PAGE_WRITECOPY: u32 = 0x08;

/// Run and read access.
pub const PAGE_EXECUTE_READ: u32 = 0x20;

/// Run, read and write access.
pub const PAGE_EXECUTE_READWRITE: u32 = 0x40;

/// Run and read access, writes go to a copy.
pub const PAGE_EXECUTE_WRITECOPY: u32 = 0x80;

/// The first access raises an alarm.
pub const PAGE_GUARD: u32 = 0x100;

/// The status of a call that went well.
pub const ERROR_SUCCESS: u32 = 0;

/// The right to read a registry key.
pub const KEY_READ: u32 = 0x20019;

/// The 32-bit view of the registry.
pub const KEY_WOW64_32KEY: u32 = 0x200;

/// The 64-bit view of the registry.
pub const KEY_WOW64_64KEY: u32 = 0x100;

/// A process whose first thread waits to be resumed.
pub const CREATE_SUSPENDED: u32 = 0x4;

/// An environment block in UTF-16.
pub const CREATE_UNICODE_ENVIRONMENT: u32 = 0x400;

/// A wait without a limit.
pub const INFINITE: u32 = 0xffffffff;

/// A library has been loaded into a process.
pub const DLL_PROCESS_ATTACH: u32 = 1;

/// The truth value that a system routine hands back.
pub const TRUE: i32 = 1;

/// `windows_sys::Win32::System::Memory::MEM_COMMIT` has the value 0x1000.
#[verifier::external_body]
pub(crate) fn mem_commit() -> (r: u32)
    ensures
        r == MEM_COMMIT,
{
    windows_sys::Win32::System::Memory::MEM_COMMIT
}

/// `windows_sys::Win32::System::Memory::MEM_RESERVE` has the value 0x2000.
#[verifier::external_body]
pub(crate) fn mem_reserve() -> (r: u32)
    ensures
        r == MEM_RESERVE,
{
    windows_sys::Win32::System::Memory::MEM_RESERVE
}

/// `windows_sys::Win32::System::Memory::MEM_RELEASE` has the value 0x8000.
#[verifier::external_body]
pub(crate) fn mem_release() -> (r: u32)
    ensures
        r == MEM_RELEASE,
{
    windows_sys::Win32::System::Memory::MEM_RELEASE
}

/// `windows_sys::Win32::System::Memory::PAGE_NOACCESS` has the value 0x01.
#[verifier::external_body]
pub(crate) fn page_noaccess() -> (r: u32)
    ensures
        r == PAGE_NOACCESS,
{
    windows_sys::Win32::System::Memory::PAGE_NOACCESS
}

/// `windows_sys::Win32::System::Memory::PAGE_READONLY` has the value 0x02.
#[verifier::external_body]
pub(crate) fn page_readonly() -> (r: u32)
    ensures
        r == PAGE_READONLY,
{
    windows_sys::Win32::System::Memory::PAGE_READONLY
}

/// `windows_sys::Win32::System::Memory::PAGE_READWRITE` has the value 0x04.
#[verifier::external_body]
pub(crate) fn page_readwrite() -> (r: u32)
    ensures
        r == PAGE_READWRITE,
{
    windows_sys::Win32::System::Memory::PAGE_READWRITE
}

/// `windows_sys::Win32::System::Memory::PAGE_WRITECOPY` has the value 0x08.
#[verifier::external_body]
pub(crate) fn page_writecopy() -> (r: u32)
    ensures
        r == PAGE_WRITECOPY,
{
    windows_sys::Win32::System::Memory::PAGE_WRITECOPY
}

/// `windows_sys::Win32::System::Memory::PAGE_EXECUTE_READ` has the value 0x20.
#[verifier::external_body]
pub(crate) fn page_execute_read() -> (r: u32)
    ensures
        r == PAGE_EXECUTE_READ,
{
    windows_sys::Win32::System::Memory::PAGE_EXECUTE_READ
}

/// `windows_sys::Win32::System::Memory::PAGE_EXECUTE_READWRITE` has the value 0x40.
#[verifier::external_body]
pub(crate) fn page_execute_readwrite() -> (r: u32)
    ensures
        r == PAGE_EXECUTE_READWRITE,
{
    windows_sys::Win32::System::Memory::PAGE_EXECUTE_READWRITE
}

/// `windows_sys::Win32::System::Memory::PAGE_EXECUTE_WRITECOPY` has the value 0x80.
#[verifier::external_body]
pub(crate) fn page_execute_writecopy() -> (r: u32)
    ensures
        r == PAGE_EXECUTE_WRITECOPY,
{
    windows_sys::Win32::System::Memory::PAGE_EXECUTE_WRITECOPY
}

/// `windows_sys::Win32::System::Memory::PAGE_GUARD` has the value 0x100.
#[verifier::external_body]
pub(crate) fn page_guard() -> (r: u32)
    ensures
        r == PAGE_GUARD,
{
    windows_sys::Win32::System::Memory::PAGE_GUARD
}

/// `windows_sys::Win32::Foundation::ERROR_SUCCESS` has the value 0.
#[verifier::external_body]
pub(crate) fn error_success() -> (r: u32)
    ensures
        r == ERROR_SUCCESS,
{
    windows_sys::Win32::Foundation::ERROR_SUCCESS
}

/// `windows_sys::Win32::System::Registry::KEY_READ` has the value 0x20019.
#[verifier::external_body]
pub(crate) fn key_read() -> (r: u32)
    ensures
        r == KEY_READ,
{
    windows_sys::Win32::System::Registry::KEY_READ
}

/// `windows_sys::Win32::System::Registry::KEY_WOW64_32KEY` has the value 0x200.
#[verifier::external_body]
pub(crate) fn key_wow64_32key() -> (r: u32)
    ensures
        r == KEY_WOW64_32KEY,
{
    windows_sys::Win32::System::Registry::KEY_WOW64_32KEY
}

/// `windows_sys::Win32::System::Registry::KEY_WOW64_64KEY` has the value 0x100.
#[verifier::external_body]
pub(crate) fn key_wow64_64key() -> (r: u32)
    ensures
        r == KEY_WOW64_64KEY,
{
    windows_sys::Win32::System::Registry::KEY_WOW64_64KEY
}

/// `windows_sys::Win32::System::Threading::CREATE_SUSPENDED` has the value 0x4.
#[verifier::external_body]
pub(crate) fn create_suspended() -> (r: u32)
    ensures
        r == CREATE_SUSPENDED,
{
    windows_sys::Win32::System::Threading::CREATE_SUSPENDED
}

/// `windows_sys::Win32::System::Threading::CREATE_UNICODE_ENVIRONMENT` has the value 0x400.
#[verifier::external_body]
pub(crate) fn create_unicode_environment() -> (r: u32)
    ensures
        r == CREATE_UNICODE_ENVIRONMENT,
{
    windows_sys::Win32::System::Threading::CREATE_UNICODE_ENVIRONMENT
}

/// `windows_sys::Win32::System::Threading::INFINITE` has the value 0xffffffff.
#[verifier::external_body]
pub(crate) fn infinite() -> (r: u32)
    ensures
        r == INFINITE,
{
    windows_sys::Win32::System::Threading::INFINITE
}

/// `windows_sys::Win32::System::SystemServices::DLL_PROCESS_ATTACH` has the value 1.
#[verifier::external_body]
pub(crate) fn dll_process_attach() -> (r: u32)
    ensures
        r == DLL_PROCESS_ATTACH,
{
    windows_sys::Win32::System::SystemServices::DLL_PROCESS_ATTACH
}

/// `windows_sys::Win32::Foundation::TRUE` has the value 1.
#[verifier::external_body]
pub(crate) fn true_value() -> (r: i32)
    ensures
        r == TRUE,
{
    windows_sys::Win32::Foundation::TRUE
}

} // verus!
