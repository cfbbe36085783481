use daydream::windows;
use windows_sys::Win32::Foundation::{ERROR_BAD_LENGTH, ERROR_NO_MORE_FILES};
use windows_sys::Win32::System::Diagnostics::Debug::{
    IMAGE_DEBUG_TYPE_CODEVIEW, IMAGE_DIRECTORY_ENTRY_ARCHITECTURE, IMAGE_DIRECTORY_ENTRY_BASERELOC,
    IMAGE_DIRECTORY_ENTRY_DEBUG, IMAGE_DIRECTORY_ENTRY_EXCEPTION, IMAGE_DIRECTORY_ENTRY_GLOBALPTR,
    IMAGE_DIRECTORY_ENTRY_IMPORT, IMAGE_DIRECTORY_ENTRY_SECURITY, IMAGE_FILE_EXECUTABLE_IMAGE,
    IMAGE_NT_HEADERS64, IMAGE_NT_OPTIONAL_HDR64_MAGIC, IMAGE_SCN_CNT_CODE,
    IMAGE_SCN_MEM_DISCARDABLE, IMAGE_SCN_MEM_EXECUTE, IMAGE_SCN_MEM_READ, IMAGE_SCN_MEM_WRITE,
    IMAGE_SECTION_HEADER,
};
use windows_sys::Win32::System::Memory::{
    MEM_COMMIT, MEM_IMAGE, MEM_MAPPED, MEM_PRIVATE, MEM_RESERVE, PAGE_EXECUTE, PAGE_EXECUTE_READ,
    PAGE_EXECUTE_READWRITE, PAGE_EXECUTE_WRITECOPY, PAGE_GUARD, PAGE_NOACCESS, PAGE_READONLY,
    PAGE_READWRITE, PAGE_WRITECOPY,
};
use windows_sys::Win32::System::SystemInformation::IMAGE_FILE_MACHINE_AMD64;
use windows_sys::Win32::System::SystemServices::{
    IMAGE_DOS_HEADER, IMAGE_DOS_SIGNATURE, IMAGE_NT_SIGNATURE,
};

#[test]
fn image_constants_have_their_system_values() {
    assert_eq!(windows::IMAGE_DOS_SIGNATURE, IMAGE_DOS_SIGNATURE);
    assert_eq!(windows::IMAGE_NT_SIGNATURE, IMAGE_NT_SIGNATURE);
    assert_eq!(windows::IMAGE_FILE_MACHINE_AMD64, IMAGE_FILE_MACHINE_AMD64);
    assert_eq!(windows::IMAGE_NT_OPTIONAL_HDR64_MAGIC, IMAGE_NT_OPTIONAL_HDR64_MAGIC);
    assert_eq!(windows::IMAGE_FILE_EXECUTABLE_IMAGE, IMAGE_FILE_EXECUTABLE_IMAGE);
    assert_eq!(windows::IMAGE_SCN_CNT_CODE, IMAGE_SCN_CNT_CODE);
    assert_eq!(windows::IMAGE_SCN_MEM_DISCARDABLE, IMAGE_SCN_MEM_DISCARDABLE);
    assert_eq!(windows::IMAGE_SCN_MEM_EXECUTE, IMAGE_SCN_MEM_EXECUTE);
    assert_eq!(windows::IMAGE_SCN_MEM_READ, IMAGE_SCN_MEM_READ);
    assert_eq!(windows::IMAGE_SCN_MEM_WRITE, IMAGE_SCN_MEM_WRITE);
    assert_eq!(windows::IMAGE_DIRECTORY_ENTRY_IMPORT, IMAGE_DIRECTORY_ENTRY_IMPORT as usize);
    assert_eq!(
        windows::IMAGE_DIRECTORY_ENTRY_EXCEPTION,
        IMAGE_DIRECTORY_ENTRY_EXCEPTION as usize
    );
    assert_eq!(windows::IMAGE_DIRECTORY_ENTRY_SECURITY, IMAGE_DIRECTORY_ENTRY_SECURITY as usize);
    assert_eq!(
        windows::IMAGE_DIRECTORY_ENTRY_BASERELOC,
        IMAGE_DIRECTORY_ENTRY_BASERELOC as usize
    );
    assert_eq!(windows::IMAGE_DIRECTORY_ENTRY_DEBUG, IMAGE_DIRECTORY_ENTRY_DEBUG as usize);
    assert_eq!(
        windows::IMAGE_DIRECTORY_ENTRY_ARCHITECTURE,
        IMAGE_DIRECTORY_ENTRY_ARCHITECTURE as usize
    );
    assert_eq!(
        windows::IMAGE_DIRECTORY_ENTRY_GLOBALPTR,
        IMAGE_DIRECTORY_ENTRY_GLOBALPTR as usize
    );
    assert_eq!(windows::IMAGE_DEBUG_TYPE_CODEVIEW, IMAGE_DEBUG_TYPE_CODEVIEW);
}

#[test]
fn memory_constants_have_their_system_values() {
    assert_eq!(windows::MEM_COMMIT, MEM_COMMIT);
    assert_eq!(windows::MEM_RESERVE, MEM_RESERVE);
    assert_eq!(windows::MEM_PRIVATE, MEM_PRIVATE);
    assert_eq!(windows::MEM_MAPPED, MEM_MAPPED);
    assert_eq!(windows::MEM_IMAGE, MEM_IMAGE);
    assert_eq!(windows::PAGE_NOACCESS, PAGE_NOACCESS);
    assert_eq!(windows::PAGE_READONLY, PAGE_READONLY);
    assert_eq!(windows::PAGE_READWRITE, PAGE_READWRITE);
    assert_eq!(windows::PAGE_WRITECOPY, PAGE_WRITECOPY);
    assert_eq!(windows::PAGE_EXECUTE, PAGE_EXECUTE);
    assert_eq!(windows::PAGE_EXECUTE_READ, PAGE_EXECUTE_READ);
    assert_eq!(windows::PAGE_EXECUTE_READWRITE, PAGE_EXECUTE_READWRITE);
    assert_eq!(windows::PAGE_EXECUTE_WRITECOPY, PAGE_EXECUTE_WRITECOPY);
    assert_eq!(windows::PAGE_GUARD, PAGE_GUARD);
    assert_eq!(windows::ERROR_NO_MORE_FILES, ERROR_NO_MORE_FILES);
    assert_eq!(windows::ERROR_BAD_LENGTH, ERROR_BAD_LENGTH);
}

#[test]
fn header_sizes_match_the_system_structures() {
    assert_eq!(daydream::pe::headers::DOS_HEADER_SIZE, std::mem::size_of::<IMAGE_DOS_HEADER>());
    assert_eq!(daydream::pe::identity::NT_HEADERS_SIZE, std::mem::size_of::<IMAGE_NT_HEADERS64>());
    assert_eq!(
        daydream::pe::headers::SECTION_HEADER_SIZE,
        std::mem::size_of::<IMAGE_SECTION_HEADER>()
    );
}
