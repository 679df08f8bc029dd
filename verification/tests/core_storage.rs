use rjango::storage::{FileSystemStorage, InMemoryStorage, Storage};
use std::path::PathBuf;

#[test]
fn test_in_memory_save_and_open() {
        let mut storage = InMemoryStorage::new();
        let name = storage.save("test.txt", b"hello world").unwrap();
        assert_eq!(name, "test.txt");
        let content = storage.open("test.txt").unwrap();
        assert_eq!(content, b"hello world");
    }

#[test]
fn test_in_memory_exists() {
        let mut storage = InMemoryStorage::new();
        assert!(!storage.file_exists("test.txt"));
        storage.save("test.txt", b"data").unwrap();
        assert!(storage.file_exists("test.txt"));
    }

#[test]
fn test_in_memory_delete() {
        let mut storage = InMemoryStorage::new();
        storage.save("test.txt", b"data").unwrap();
        storage.delete("test.txt").unwrap();
        assert!(!storage.file_exists("test.txt"));
    }

#[test]
fn test_in_memory_size() {
        let mut storage = InMemoryStorage::new();
        storage.save("data.bin", &[1u8; 100]).unwrap();
        assert_eq!(storage.size("data.bin").unwrap(), 100);
    }

#[test]
fn test_in_memory_url() {
        let storage = InMemoryStorage::new();
        assert_eq!(storage.url("photo.jpg"), "/media/photo.jpg");
    }

#[test]
fn test_in_memory_listdir() {
        let mut storage = InMemoryStorage::new();
        storage.save("dir/file1.txt", b"a").unwrap();
        storage.save("dir/file2.txt", b"b").unwrap();
        let files = storage.listdir("dir/").unwrap();
        assert_eq!(files.len(), 2);
    }

#[test]
fn test_in_memory_open_not_found() {
        let storage = InMemoryStorage::new();
        let result = storage.open("nonexistent.txt");
        assert!(result.is_err());
    }

#[test]
fn test_file_system_storage_new() {
        let storage = FileSystemStorage::new(PathBuf::from("/tmp/test_storage"), "/media/");
        assert_eq!(storage.base_url(), "/media/");
    }

#[test]
fn test_file_system_storage_url() {
        let storage = FileSystemStorage::new(PathBuf::from("/tmp"), "/media/");
        assert_eq!(storage.url("test.txt"), "/media/test.txt");
    }

#[test]
fn test_storage_trait_object() {
        let mut storage: Box<dyn Storage> = Box::new(InMemoryStorage::new());
        storage.save("a.txt", b"data").unwrap();
        assert!(storage.file_exists("a.txt"));
        assert_eq!(storage.url("a.txt"), "/media/a.txt");
    }

#[test]
fn test_in_memory_default() {
        let storage = InMemoryStorage::default();
        assert!(!storage.file_exists("anything"));
    }
