use sidecar_edit::accumulator::SearchAndReplaceAccumulator;

#[test]
fn test_multiple_search_and_edit_blocks() {
    let input_data = r#"impl LLMClientMessage {
    pub async fn new(role: LLMClientRole, message: String) -> Self {
        Self {
            role,
            message,
            function_call: None,
            function_return: None,
        }
    }

    pub fn concat_message(&mut self, message: &str) {
        self.message = self.message.to_owned() + "\n" + message;
    }

    pub fn concat(self, other: Self) -> Self {
        // We are going to concatenate the 2 llm client messages togehter, at this moment
        // we are just gonig to join the message with a \n
        Self {
            role: self.role,
            message: self.message + "\n" + &other.message,
            function_call: match self.function_call {
                Some(function_call) => Some(function_call),
                None => other.function_call,
            },
            function_return: match other.function_return {
                Some(function_return) => Some(function_return),
                None => self.function_return,
            },
        }
    }

    pub fn function_call(name: String, arguments: String) -> Self {
        Self {
            role: LLMClientRole::Assistant,
            message: "".to_owned(),
            function_call: Some(LLMClientMessageFunctionCall { name, arguments }),
            function_return: None,
        }
    }

    pub fn function_return(name: String, content: String) -> Self {
        Self {
            role: LLMClientRole::Function,
            message: "".to_owned(),
            function_call: None,
            function_return: Some(LLMClientMessageFunctionReturn { name, content }),
        }
    }

    pub fn user(message: String) -> Self {
        Self::new(LLMClientRole::User, message)
    }

    pub fn assistant(message: String) -> Self {
        Self::new(LLMClientRole::Assistant, message)
    }

    pub fn system(message: String) -> Self {
        Self::new(LLMClientRole::System, message)
    }

    pub fn content(&self) -> &str {
        &self.message
    }

    pub fn set_empty_content(&mut self) {
        self.message =
            "empty message found here, possibly an error but keep following the conversation"
                .to_owned();
    }

    pub fn function(message: String) -> Self {
        Self::new(LLMClientRole::Function, message)
    }

    pub fn role(&self) -> &LLMClientRole {
        &self.role
    }

    pub fn get_function_call(&self) -> Option<&LLMClientMessageFunctionCall> {
        self.function_call.as_ref()
    }

    pub fn get_function_return(&self) -> Option<&LLMClientMessageFunctionReturn> {
        self.function_return.as_ref()
    }
}"#;
    let edits = r#"/Users/skcd/test_repo/sidecar/llm_client/src/clients/types.rs
```rust
<<<<<<< SEARCH
    pub fn concat(self, other: Self) -> Self {
        // We are going to concatenate the 2 llm client messages togehter, at this moment
        // we are just gonig to join the message with a \n
        Self {
            role: self.role,
            message: self.message + "\n" + &other.message,
            function_call: match self.function_call {
                Some(function_call) => Some(function_call),
                None => other.function_call,
            },
            function_return: match other.function_return {
                Some(function_return) => Some(function_return),
                None => self.function_return,
            },
        }
    }

    pub fn function_call(name: String, arguments: String) -> Self {
        Self {
            role: LLMClientRole::Assistant,
            message: "".to_owned(),
            function_call: Some(LLMClientMessageFunctionCall { name, arguments }),
            function_return: None,
        }
    }

    pub fn function_return(name: String, content: String) -> Self {
        Self {
            role: LLMClientRole::Function,
            message: "".to_owned(),
            function_call: None,
            function_return: Some(LLMClientMessageFunctionReturn { name, content }),
        }
    }

    pub fn user(message: String) -> Self {
        Self::new(LLMClientRole::User, message)
    }

    pub fn assistant(message: String) -> Self {
        Self::new(LLMClientRole::Assistant, message)
    }

    pub fn system(message: String) -> Self {
        Self::new(LLMClientRole::System, message)
    }
=======
    pub fn concat(self, other: Self) -> impl Future<Output = Self> {
        async move {
            // We are going to concatenate the 2 llm client messages togehter, at this moment
            // we are just gonig to join the message with a \n
            Self {
                role: self.role,
                message: self.message + "\n" + &other.message,
                function_call: match self.function_call {
                    Some(function_call) => Some(function_call),
                    None => other.function_call,
                },
                function_return: match other.function_return {
                    Some(function_return) => Some(function_return),
                    None => self.function_return,
                },
            }
        }
    }

    pub fn function_call(name: String, arguments: String) -> impl Future<Output = Self> {
        async move {
            Self {
                role: LLMClientRole::Assistant,
                message: "".to_owned(),
                function_call: Some(LLMClientMessageFunctionCall { name, arguments }),
                function_return: None,
            }
        }
    }

    pub fn function_return(name: String, content: String) -> impl Future<Output = Self> {
        async move {
            Self {
                role: LLMClientRole::Function,
                message: "".to_owned(),
                function_call: None,
                function_return: Some(LLMClientMessageFunctionReturn { name, content }),
            }
        }
    }

    pub fn user(message: String) -> impl Future<Output = Self> {
        Self::new(LLMClientRole::User, message)
    }

    pub fn assistant(message: String) -> impl Future<Output = Self> {
        Self::new(LLMClientRole::Assistant, message)
    }

    pub fn system(message: String) -> impl Future<Output = Self> {
        Self::new(LLMClientRole::System, message)
    }
>>>>>>> REPLACE
```

/Users/skcd/test_repo/sidecar/llm_client/src/clients/types.rs
```rust
<<<<<<< SEARCH
    pub fn function(message: String) -> Self {
        Self::new(LLMClientRole::Function, message)
    }
=======
    pub fn function(message: String) -> impl Future<Output = Self> {
        Self::new(LLMClientRole::Function, message)
    }
>>>>>>> REPLACE
```"#;

    let (sender, _receiver) = tokio::sync::mpsc::unbounded_channel();
    let mut search_and_replace_accumulator =
        SearchAndReplaceAccumulator::new(input_data.to_owned(), 0, sender);
    search_and_replace_accumulator.add_delta(edits.to_owned());
    let final_lines = search_and_replace_accumulator.code_lines().join("\n");
    assert_eq!(
        final_lines,
        r#"impl LLMClientMessage {
    pub async fn new(role: LLMClientRole, message: String) -> Self {
        Self {
            role,
            message,
            function_call: None,
            function_return: None,
        }
    }

    pub fn concat_message(&mut self, message: &str) {
        self.message = self.message.to_owned() + "\n" + message;
    }

    pub fn concat(self, other: Self) -> impl Future<Output = Self> {
        async move {
            // We are going to concatenate the 2 llm client messages togehter, at this moment
            // we are just gonig to join the message with a \n
            Self {
                role: self.role,
                message: self.message + "\n" + &other.message,
                function_call: match self.function_call {
                    Some(function_call) => Some(function_call),
                    None => other.function_call,
                },
                function_return: match other.function_return {
                    Some(function_return) => Some(function_return),
                    None => self.function_return,
                },
            }
        }
    }

    pub fn function_call(name: String, arguments: String) -> impl Future<Output = Self> {
        async move {
            Self {
                role: LLMClientRole::Assistant,
                message: "".to_owned(),
                function_call: Some(LLMClientMessageFunctionCall { name, arguments }),
                function_return: None,
            }
        }
    }

    pub fn function_return(name: String, content: String) -> impl Future<Output = Self> {
        async move {
            Self {
                role: LLMClientRole::Function,
                message: "".to_owned(),
                function_call: None,
                function_return: Some(LLMClientMessageFunctionReturn { name, content }),
            }
        }
    }

    pub fn user(message: String) -> impl Future<Output = Self> {
        Self::new(LLMClientRole::User, message)
    }

    pub fn assistant(message: String) -> impl Future<Output = Self> {
        Self::new(LLMClientRole::Assistant, message)
    }

    pub fn system(message: String) -> impl Future<Output = Self> {
        Self::new(LLMClientRole::System, message)
    }

    pub fn content(&self) -> &str {
        &self.message
    }

    pub fn set_empty_content(&mut self) {
        self.message =
            "empty message found here, possibly an error but keep following the conversation"
                .to_owned();
    }

    pub fn function(message: String) -> impl Future<Output = Self> {
        Self::new(LLMClientRole::Function, message)
    }

    pub fn role(&self) -> &LLMClientRole {
        &self.role
    }

    pub fn get_function_call(&self) -> Option<&LLMClientMessageFunctionCall> {
        self.function_call.as_ref()
    }

    pub fn get_function_return(&self) -> Option<&LLMClientMessageFunctionReturn> {
        self.function_return.as_ref()
    }
}"#
    );
}

#[test]
fn test_search_and_replace_removing_code() {
    let original_code = r#"impl SymbolToEdit {
    pub fn new(
        symbol_name: String,
        range: Range,
        fs_file_path: String,
        instructions: Vec<String>,
        outline: bool,
        is_new: bool,
        is_full_edit: bool,
        original_user_query: String,
        symbol_edited_list: Option<Vec<SymbolEditedItem>>,
    ) -> Self {
        Self {
            symbol_name,
            range,
            outline,
            fs_file_path,
            instructions,
            is_new,
            is_full_edit,
            original_user_query,
            symbol_edited_list,
        }
    }

    pub fn symbol_edited_list(&self) -> Option<Vec<SymbolEditedItem>> {
        self.symbol_edited_list.clone()
    }

    pub fn original_user_query(&self) -> &str {
        &self.original_user_query
    }

    pub fn is_full_edit(&self) -> bool {
        self.is_full_edit
    }

    pub fn set_fs_file_path(&mut self, fs_file_path: String) {
        self.fs_file_path = fs_file_path;
    }

    pub fn set_range(&mut self, range: Range) {
        self.range = range;
    }

    pub fn is_new(&self) -> bool {
        self.is_new.clone()
    }

    pub fn range(&self) -> &Range {
        &self.range
    }

    pub fn is_outline(&self) -> bool {
        self.outline
    }

    pub fn symbol_name(&self) -> &str {
        &self.symbol_name
    }

    pub fn instructions(&self) -> &[String] {
        self.instructions.as_slice()
    }

    pub fn fs_file_path(&self) -> &str {
        &self.fs_file_path
    }
}"#;
    let edits = r#"/Users/zi/codestory/testing/sidecar/sidecar/src/agentic/symbol/events/edit.rs
```rust
<<<<<<< SEARCH
impl SymbolToEdit {
    pub fn new(
        symbol_name: String,
        range: Range,
        fs_file_path: String,
        instructions: Vec<String>,
        outline: bool,
        is_new: bool,
        is_full_edit: bool,
        original_user_query: String,
        symbol_edited_list: Option<Vec<SymbolEditedItem>>,
    ) -> Self {
        Self {
            symbol_name,
            range,
            outline,
            fs_file_path,
            instructions,
            is_new,
            is_full_edit,
            original_user_query,
            symbol_edited_list,
        }
    }
=======
impl SymbolToEdit {
    pub fn new(
        symbol_name: String,
        range: Range,
        fs_file_path: String,
        instructions: Vec<String>,
        is_new: bool,
        is_full_edit: bool,
        original_user_query: String,
        symbol_edited_list: Option<Vec<SymbolEditedItem>>,
    ) -> Self {
        Self {
            symbol_name,
            range,
            fs_file_path,
            instructions,
            is_new,
            is_full_edit,
            original_user_query,
            symbol_edited_list,
        }
    }
>>>>>>> REPLACE
```

/Users/zi/codestory/testing/sidecar/sidecar/src/agentic/symbol/events/edit.rs
```rust
<<<<<<< SEARCH
    pub fn is_outline(&self) -> bool {
        self.outline
    }

=======
>>>>>>> REPLACE
```"#;
    let (sender, _receiver) = tokio::sync::mpsc::unbounded_channel();
    let mut search_and_replace_accumulator =
        SearchAndReplaceAccumulator::new(original_code.to_owned(), 0, sender);
    search_and_replace_accumulator.add_delta(edits.to_owned());
    let final_code = search_and_replace_accumulator.code_lines().join("\n");
    assert_eq!(
        final_code,
        r#"impl SymbolToEdit {
    pub fn new(
        symbol_name: String,
        range: Range,
        fs_file_path: String,
        instructions: Vec<String>,
        is_new: bool,
        is_full_edit: bool,
        original_user_query: String,
        symbol_edited_list: Option<Vec<SymbolEditedItem>>,
    ) -> Self {
        Self {
            symbol_name,
            range,
            fs_file_path,
            instructions,
            is_new,
            is_full_edit,
            original_user_query,
            symbol_edited_list,
        }
    }

    pub fn symbol_edited_list(&self) -> Option<Vec<SymbolEditedItem>> {
        self.symbol_edited_list.clone()
    }

    pub fn original_user_query(&self) -> &str {
        &self.original_user_query
    }

    pub fn is_full_edit(&self) -> bool {
        self.is_full_edit
    }

    pub fn set_fs_file_path(&mut self, fs_file_path: String) {
        self.fs_file_path = fs_file_path;
    }

    pub fn set_range(&mut self, range: Range) {
        self.range = range;
    }

    pub fn is_new(&self) -> bool {
        self.is_new.clone()
    }

    pub fn range(&self) -> &Range {
        &self.range
    }

    pub fn symbol_name(&self) -> &str {
        &self.symbol_name
    }

    pub fn instructions(&self) -> &[String] {
        self.instructions.as_slice()
    }

    pub fn fs_file_path(&self) -> &str {
        &self.fs_file_path
    }
}"#
    );
}

#[test]
fn test_with_broken_replace_block() {
    let code = r#"something
interesting
something_else
blahblah"#;
    let edits = r#"```
<<<<<<< SEARCH
something_else
blahblah
=======
blahblah2
=======
```"#;
    let (sender, _receiver) = tokio::sync::mpsc::unbounded_channel();
    let mut search_and_replace_accumulator =
        SearchAndReplaceAccumulator::new(code.to_owned(), 0, sender);
    search_and_replace_accumulator.add_delta(edits.to_owned());
    let final_code = search_and_replace_accumulator.code_lines().join("\n");
    assert_eq!(
        final_code,
        r#"something
interesting
blahblah2"#
    );
}
